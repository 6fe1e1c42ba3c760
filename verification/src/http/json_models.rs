//! The host-info document: what this process says of itself when asked.

use vstd::prelude::*;
use vstd::string::*;
use crate::json::{json_string, quote};
use crate::text::{decimal, decimal_string};
use crate::OQError;

verus! {

/// The optional attributes that this host fills in on its nodes.
#[derive(Clone, Copy, Debug, PartialEq, Eq, Structural)]
pub struct HostInfoExtensions {
    pub access: bool,
    pub clipmode: bool,
    pub range: bool,
    pub _type: bool,
    pub value: bool,
}

/// This process's own description: its name and where its OSC socket listens.
#[derive(Debug, PartialEq, Eq)]
pub struct HostInfo<'hostinfo> {
    pub name: String,
    pub extensions: HostInfoExtensions,
    pub osc_ip: String,
    pub osc_port: u16,
    pub osc_transport: &'hostinfo str,
}

/// A `HostInfo` with its texts as character sequences.
pub struct HostInfoModel {
    pub name: Seq<char>,
    pub extensions: HostInfoExtensions,
    pub osc_ip: Seq<char>,
    pub osc_port: u16,
    pub osc_transport: Seq<char>,
}

impl<'hostinfo> View for HostInfo<'hostinfo> {
    type V = HostInfoModel;

    open spec fn view(&self) -> HostInfoModel {
        HostInfoModel {
            name: self.name@,
            extensions: self.extensions,
            osc_ip: self.osc_ip@,
            osc_port: self.osc_port,
            osc_transport: self.osc_transport@,
        }
    }
}

/// The description of a host named `name` whose OSC socket listens at
/// `osc_ip`:`osc_port` over UDP: it fills in access, range, type and value,
/// and no clip mode.
pub open spec fn host_info_of(name: Seq<char>, osc_ip: Seq<char>, osc_port: u16) -> HostInfoModel {
    HostInfoModel {
        name,
        extensions: HostInfoExtensions {
            access: true,
            clipmode: false,
            range: true,
            _type: true,
            value: true,
        },
        osc_ip,
        osc_port,
        osc_transport: "UDP"@,
    }
}

/// The JSON literal of a boolean.
pub open spec fn bool_literal(b: bool) -> Seq<char> {
    if b {
        "true"@
    } else {
        "false"@
    }
}

/// The JSON object of the extension flags, keys in the order of the fields.
pub open spec fn extensions_document(e: HostInfoExtensions) -> Seq<char> {
    "{\"ACCESS\":"@ + bool_literal(e.access) + ",\"CLIPMODE\":"@ + bool_literal(e.clipmode)
        + ",\"RANGE\":"@ + bool_literal(e.range) + ",\"TYPE\":"@ + bool_literal(e._type)
        + ",\"VALUE\":"@ + bool_literal(e.value) + "}"@
}

/// The host-info document around three string literals that are already in
/// JSON form: the name, the address and the transport.
pub open spec fn host_info_around(
    h: HostInfoModel,
    name: Seq<char>,
    ip: Seq<char>,
    transport: Seq<char>,
) -> Seq<char> {
    "{\"NAME\":"@ + name + ",\"EXTENSIONS\":"@ + extensions_document(h.extensions)
        + ",\"OSC_IP\":"@ + ip + ",\"OSC_PORT\":"@ + decimal(h.osc_port as nat)
        + ",\"OSC_TRANSPORT\":"@ + transport + "}"@
}

/// The host-info document of `h`.
pub open spec fn host_info_document(h: HostInfoModel) -> Seq<char> {
    host_info_around(h, json_string(h.name), json_string(h.osc_ip), json_string(h.osc_transport))
}

/// The word that JSON has for `b`.
pub fn bool_str(b: bool) -> (s: &'static str)
    ensures
        s@ == bool_literal(b),
{
    if b {
        "true"
    } else {
        "false"
    }
}

impl HostInfoExtensions {
    /// The flags as a JSON object.
    pub fn to_json(&self) -> (s: String)
        ensures
            s@ == extensions_document(*self),
    {
        let mut s: String = String::from_str("{\"ACCESS\":");
        s.append(bool_str(self.access));
        s.append(",\"CLIPMODE\":");
        s.append(bool_str(self.clipmode));
        s.append(",\"RANGE\":");
        s.append(bool_str(self.range));
        s.append(",\"TYPE\":");
        s.append(bool_str(self._type));
        s.append(",\"VALUE\":");
        s.append(bool_str(self.value));
        s.append("}");
        assert(s@ =~= extensions_document(*self));
        s
    }
}

impl<'hostinfo> HostInfo<'hostinfo> {
    /// The description that a host named `name` serves, with its OSC socket
    /// at `osc_ip`:`osc_port`.
    pub fn new(name: String, osc_ip: String, osc_port: u16) -> (h: HostInfo<'static>)
        ensures
            h@ == host_info_of(name@, osc_ip@, osc_port),
    {
        HostInfo {
            name,
            extensions: HostInfoExtensions {
                access: true,
                clipmode: false,
                range: true,
                _type: true,
                value: true,
            },
            osc_ip,
            osc_port,
            osc_transport: "UDP",
        }
    }

    /// Writes the document around the three texts, which are taken as they
    /// are: the caller has put them in JSON form.
    pub fn document_around(&self, name: &str, ip: &str, transport: &str) -> (s: String)
        ensures
            s@ == host_info_around(self@, name@, ip@, transport@),
    {
        let extensions: String = self.extensions.to_json();
        let port: String = decimal_string(self.osc_port as usize);
        let mut s: String = String::from_str("{\"NAME\":");
        s.append(name);
        s.append(",\"EXTENSIONS\":");
        s.append(extensions.as_str());
        s.append(",\"OSC_IP\":");
        s.append(ip);
        s.append(",\"OSC_PORT\":");
        s.append(port.as_str());
        s.append(",\"OSC_TRANSPORT\":");
        s.append(transport);
        s.append("}");
        assert(s@ =~= host_info_around(self@, name@, ip@, transport@));
        s
    }

    /// Serializes the description as the host-info document.
    pub fn to_json(&self) -> (r: Result<String, OQError>)
        ensures
            r matches Ok(s) && s@ == host_info_document(self@),
    {
        let name = quote(self.name.as_str());
        let ip = quote(self.osc_ip.as_str());
        let transport = quote(self.osc_transport);
        match (name, ip, transport) {
            (Ok(name), Ok(ip), Ok(transport)) => Ok(
                self.document_around(name.as_str(), ip.as_str(), transport.as_str()),
            ),
            _ => Err(OQError::Json),
        }
    }
}

} // verus!
