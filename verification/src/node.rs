//! The parameter tree of a peer, and how a path finds a node in it.
//!
//! A node is a container of child nodes under segment names, or a leaf with
//! a type tag and values. `NodeTree` is the mathematical tree; `OSCQueryNode`
//! is the tree in memory, and its view is a `NodeTree`.

use vstd::prelude::*;
use vstd::string::*;
use crate::keys::{distinct, entry_keys, find, first_index, keys_of};
use crate::text::{chars_start_with, to_chars};

verus! {

/// One value of a leaf.
#[derive(Debug, PartialEq, Eq)]
pub enum OSCQueryValue {
    BOOLEAN(bool),
    /// A number that is no 32-bit integer, as the bits of the double that
    /// the document's numeral denotes. `f64::from_bits` gives the number.
    FLOAT(u64),
    STRING(String),
    INT(i32),
    /// An object of small integers, its members in the order of the JSON
    /// object.
    OBJECT(Vec<(String, u8)>),
}

/// The type tag and the values of a leaf.
#[derive(Debug, PartialEq, Eq)]
pub struct TypedValue {
    /// The OSC type tag string, such as `f` or `s`.
    pub _type: String,
    /// The current values, where the peer sent any.
    pub value: Option<Vec<OSCQueryValue>>,
}

/// The children of a container, each under its segment name. A lookup takes
/// the first child under a name.
#[derive(Debug, PartialEq, Eq)]
pub struct Contents {
    pub contents: Vec<(String, OSCQueryNode)>,
}

/// What a node holds: children or a value, never both.
#[derive(Debug, PartialEq, Eq)]
pub enum NodeData {
    Internal(Contents),
    Leaf(TypedValue),
}

/// A node of a peer's parameter tree.
#[derive(Debug, PartialEq, Eq)]
pub struct OSCQueryNode {
    /// The path that addresses the node: `/` for the root of a tree.
    pub full_path: String,
    /// 0 for no access, 1 to read, 2 to write, 3 for both. Nothing here
    /// depends on it.
    pub access: i8,
    pub description: Option<String>,
    pub data: NodeData,
}

/// A leaf's value, as mathematics.
pub enum ValueModel {
    Boolean(bool),
    Float(u64),
    String(Seq<char>),
    Int(i32),
    Object(Seq<(Seq<char>, u8)>),
}

/// What a node of the mathematical tree holds.
pub enum Payload {
    Container(Seq<(Seq<char>, NodeTree)>),
    Leaf { value_type: Seq<char>, values: Option<Seq<ValueModel>> },
}

/// The mathematical tree: a node with all that is below it.
pub struct NodeTree {
    pub full_path: Seq<char>,
    pub access: i8,
    pub description: Option<Seq<char>>,
    pub payload: Payload,
}

/// The members of an object value, as mathematics.
pub open spec fn members_view(members: Seq<(String, u8)>) -> Seq<(Seq<char>, u8)> {
    Seq::new(members.len(), |i: int| (members[i].0@, members[i].1))
}

impl View for OSCQueryValue {
    type V = ValueModel;

    open spec fn view(&self) -> ValueModel {
        match self {
            OSCQueryValue::BOOLEAN(b) => ValueModel::Boolean(*b),
            OSCQueryValue::FLOAT(bits) => ValueModel::Float(*bits),
            OSCQueryValue::STRING(s) => ValueModel::String(s@),
            OSCQueryValue::INT(i) => ValueModel::Int(*i),
            OSCQueryValue::OBJECT(members) => ValueModel::Object(members_view(members@)),
        }
    }
}

/// The values of a leaf, as mathematics.
pub open spec fn values_view(values: Seq<OSCQueryValue>) -> Seq<ValueModel> {
    Seq::new(values.len(), |i: int| values[i]@)
}

impl View for TypedValue {
    type V = Payload;

    open spec fn view(&self) -> Payload {
        Payload::Leaf {
            value_type: self._type@,
            values: match self.value {
                Some(values) => Some(values_view(values@)),
                None => None,
            },
        }
    }
}

/// The tree that `node` holds in memory.
pub open spec fn node_view(node: OSCQueryNode) -> NodeTree
    decreases node,
{
    NodeTree {
        full_path: node.full_path@,
        access: node.access,
        description: match node.description {
            Some(text) => Some(text@),
            None => None,
        },
        payload: match node.data {
            NodeData::Internal(internal) => Payload::Container(children_view(internal.contents@)),
            NodeData::Leaf(leaf) => leaf@,
        },
    }
}

/// The children of a container, each as the tree it holds.
pub open spec fn children_view(children: Seq<(String, OSCQueryNode)>) -> Seq<(Seq<char>, NodeTree)>
    decreases children,
{
    Seq::new(
        children.len(),
        |i: int|
            if 0 <= i < children.len() {
                (children[i].0@, node_view(children[i].1))
            } else {
                arbitrary()
            },
    )
}

impl View for OSCQueryNode {
    type V = NodeTree;

    open spec fn view(&self) -> NodeTree {
        node_view(*self)
    }
}

impl View for Contents {
    type V = Seq<(Seq<char>, NodeTree)>;

    open spec fn view(&self) -> Seq<(Seq<char>, NodeTree)> {
        children_view(self.contents@)
    }
}

impl View for NodeData {
    type V = Payload;

    open spec fn view(&self) -> Payload {
        match self {
            NodeData::Internal(internal) => Payload::Container(internal@),
            NodeData::Leaf(leaf) => leaf@,
        }
    }
}

/// The path `"/"`, under which a tree's root stands.
pub open spec fn root_path() -> Seq<char> {
    seq!['/']
}

/// How many characters of `s` come before its first `/`.
pub open spec fn until_slash(s: Seq<char>) -> int
    decreases s.len(),
{
    if s.len() == 0 || s[0] == '/' {
        0
    } else {
        1 + until_slash(s.skip(1))
    }
}

/// The segment that `suffix` opens with: what follows its first character,
/// up to the next `/`.
pub open spec fn next_segment(suffix: Seq<char>) -> Seq<char> {
    if suffix.len() == 0 {
        Seq::empty()
    } else {
        suffix.skip(1).take(until_slash(suffix.skip(1)))
    }
}

/// What is left of `path` below the node at `own`: all of `path` for the
/// root path, else `path` without `own` in front, if it has `own` in front.
pub open spec fn suffix_below(own: Seq<char>, path: Seq<char>) -> Option<Seq<char>> {
    if own == root_path() {
        Some(path)
    } else if own.is_prefix_of(path) {
        Some(path.skip(own.len() as int))
    } else {
        None
    }
}

impl NodeTree {
    /// The node that `path` addresses, looked for from this node down: this
    /// node if the path is its own; else, in a container, what the child
    /// under the path's next segment finds.
    pub open spec fn node_at_path(self, path: Seq<char>) -> Option<NodeTree>
        decreases self,
    {
        if self.full_path == path {
            Some(self)
        } else {
            match self.payload {
                Payload::Leaf { .. } => None,
                Payload::Container(children) => match suffix_below(self.full_path, path) {
                    None => None,
                    Some(suffix) => {
                        let i = first_index(keys_of(children), next_segment(suffix));
                        if 0 <= i < children.len() {
                            children[i].1.node_at_path(path)
                        } else {
                            None
                        }
                    },
                },
            }
        }
    }

    /// The paths of the leaves of this tree, depth first, children in order.
    pub open spec fn leaf_params(self) -> Seq<Seq<char>>
        decreases self,
    {
        match self.payload {
            Payload::Leaf { .. } => seq![self.full_path],
            Payload::Container(children) => leaves_of(children),
        }
    }

    /// The number of leaves of this tree.
    pub open spec fn leaf_count(self) -> nat
        decreases self,
    {
        match self.payload {
            Payload::Leaf { .. } => 1,
            Payload::Container(children) => leaf_count_of(children),
        }
    }

    /// Whether no container in this tree has two children under one segment
    /// name.
    pub open spec fn uniquely_named(self) -> bool
        decreases self,
    {
        match self.payload {
            Payload::Leaf { .. } => true,
            Payload::Container(children) => distinct(keys_of(children)) && forall|i: int|
                0 <= i < children.len() ==> (#[trigger] children[i]).1.uniquely_named(),
        }
    }

    /// Whether every node below this one stands where its path says: the
    /// children of a container have distinct segment names, and each child's
    /// path is that of the container, extended by the child's segment.
    pub open spec fn well_addressed(self) -> bool
        decreases self,
    {
        match self.payload {
            Payload::Leaf { .. } => true,
            Payload::Container(children) => distinct(keys_of(children)) && forall|i: int|
                0 <= i < children.len() ==> {
                    &&& is_segment((#[trigger] children[i]).0)
                    &&& children[i].1.full_path == child_path(self.full_path, children[i].0)
                    &&& children[i].1.well_addressed()
                },
        }
    }

    /// Whether `node` is this node or stands anywhere below it.
    pub open spec fn contains(self, node: NodeTree) -> bool
        decreases self,
    {
        self == node || match self.payload {
            Payload::Leaf { .. } => false,
            Payload::Container(children) => exists|i: int|
                0 <= i < children.len() && (#[trigger] children[i]).1.contains(node),
        }
    }
}

/// A segment name: one character at least, and no `/` in it.
pub open spec fn is_segment(s: Seq<char>) -> bool {
    s.len() > 0 && forall|i: int| 0 <= i < s.len() ==> s[i] != '/'
}

/// The path of the child under `segment` of the node at `parent`: the
/// parent's path, a `/` unless the parent is the root, and the segment.
pub open spec fn child_path(parent: Seq<char>, segment: Seq<char>) -> Seq<char> {
    if parent == root_path() {
        parent + segment
    } else {
        parent + seq!['/'] + segment
    }
}

/// `path` is `own`, or goes on below it: `own`, a `/`, and more.
pub open spec fn continues(path: Seq<char>, own: Seq<char>) -> bool {
    own.is_prefix_of(path) && (path.len() == own.len() || path[own.len() as int] == '/')
}

/// The leaf paths of `children`, one child after the other.
pub open spec fn leaves_of(children: Seq<(Seq<char>, NodeTree)>) -> Seq<Seq<char>>
    decreases children,
{
    if children.len() == 0 {
        Seq::empty()
    } else {
        leaves_of(children.drop_last()) + children.last().1.leaf_params()
    }
}

/// The number of leaves under `children`.
pub open spec fn leaf_count_of(children: Seq<(Seq<char>, NodeTree)>) -> nat
    decreases children,
{
    if children.len() == 0 {
        0
    } else {
        leaf_count_of(children.drop_last()) + children.last().1.leaf_count()
    }
}

/// The texts of `items` as character sequences.
pub open spec fn texts_view(items: Seq<&str>) -> Seq<Seq<char>> {
    Seq::new(items.len(), |i: int| items[i]@)
}

/// Counting up to the first `/` from the front and from position `k` agree
/// while none has been met.
proof fn lemma_until_slash_step(s: Seq<char>, k: int)
    requires
        0 <= k <= s.len(),
        forall|j: int| 0 <= j < k ==> s[j] != '/',
    ensures
        until_slash(s) == k + until_slash(s.skip(k)),
    decreases k,
{
    if k == 0 {
        assert(s.skip(0) =~= s);
    } else {
        lemma_until_slash_step(s, k - 1);
        let tail = s.skip(k - 1);
        assert(tail[0] == s[k - 1]);
        assert(tail.skip(1) =~= s.skip(k));
    }
}

/// Where the next segment of `target` stands, given that the node's own part
/// ends at `start`: from one past `start` up to the next `/`.
fn segment_bounds(target: &Vec<char>, start: usize) -> (bounds: (usize, usize))
    requires
        start <= target.len(),
    ensures
        bounds.0 <= bounds.1 <= target.len(),
        target@.subrange(bounds.0 as int, bounds.1 as int) == next_segment(
            target@.skip(start as int),
        ),
{
    if start == target.len() {
        assert(target@.subrange(start as int, start as int) =~= Seq::<char>::empty());
        return (start, start);
    }
    let from: usize = start + 1;
    let ghost rest = target@.skip(from as int);
    let mut to: usize = from;
    while to < target.len() && target[to] != '/'
        invariant
            from <= to <= target.len(),
            rest == target@.skip(from as int),
            forall|j: int| 0 <= j < to - from ==> rest[j] != '/',
        decreases target.len() - to,
    {
        to = to + 1;
    }
    proof {
        lemma_until_slash_step(rest, to - from);
        let tail = rest.skip(to - from);
        if to < target.len() {
            assert(tail[0] == target@[to as int]);
        }
        assert(until_slash(tail) == 0);
        assert(target@.skip(start as int).skip(1) =~= rest);
        assert(target@.subrange(from as int, to as int) =~= rest.take(to - from));
    }
    (from, to)
}

impl OSCQueryNode {
    /// Finds the node that `path` addresses, from this node down.
    pub fn node_at_path(&self, path: String) -> (r: Option<&OSCQueryNode>)
        ensures
            match r {
                Some(node) => self@.node_at_path(path@) == Some(node@),
                None => self@.node_at_path(path@) is None,
            },
        decreases self,
    {
        if self.full_path == path {
            return Some(self);
        }
        match &self.data {
            NodeData::Leaf(_) => None,
            NodeData::Internal(node) => {
                let target: Vec<char> = to_chars(path.as_str());
                let own: Vec<char> = to_chars(self.full_path.as_str());
                let start: usize = if own.len() == 1 && own[0] == '/' {
                    assert(own@ =~= root_path());
                    0
                } else if chars_start_with(target.as_slice(), own.as_slice()) {
                    own.len()
                } else {
                    return None;
                };
                assert(suffix_below(self@.full_path, path@) == Some(target@.skip(start as int))) by {
                    assert(target@.skip(0) =~= target@);
                }
                let bounds = segment_bounds(&target, start);
                let next_parameter: String = String::from_str(
                    path.as_str().substring_char(bounds.0, bounds.1),
                );
                let i: usize = find(&node.contents, &next_parameter);
                assert(entry_keys(node.contents@) =~= keys_of(children_view(node.contents@)));
                if i < node.contents.len() {
                    node.contents[i].1.node_at_path(path)
                } else {
                    None
                }
            },
        }
    }

    /// Lists the paths of the leaves of this tree, depth first, the children
    /// of a container in the order in which it holds them.
    pub fn leaf_params(&self) -> (r: Vec<&str>)
        ensures
            texts_view(r@) == self@.leaf_params(),
            r@.len() == self@.leaf_params().len(),
            forall|i: int| 0 <= i < r@.len() ==> (#[trigger] r@[i])@ == self@.leaf_params()[i],
        decreases self,
    {
        match &self.data {
            NodeData::Leaf(_) => {
                let mut out: Vec<&str> = Vec::new();
                out.push(self.full_path.as_str());
                assert(texts_view(out@) =~= seq![self@.full_path]);
                out
            },
            NodeData::Internal(internal) => {
                let mut out: Vec<&str> = Vec::new();
                let ghost children = children_view(internal.contents@);
                let mut i: usize = 0;
                assert(texts_view(out@) =~= leaves_of(children.take(0)));
                while i < internal.contents.len()
                    invariant
                        i <= internal.contents.len(),
                        children == children_view(internal.contents@),
                        texts_view(out@) == leaves_of(children.take(i as int)),
                        self.data == NodeData::Internal(*internal),
                    decreases internal.contents.len() - i,
                {
                    let ghost before = out@;
                    proof {
                        let data = self.data;
                        assert(decreases_to!(self => self.data));
                        assert(decreases_to!(data => data->Internal_0));
                        assert(decreases_to!(internal => internal.contents));
                    }
                    let mut below: Vec<&str> = internal.contents[i].1.leaf_params();
                    let ghost added = below@;
                    out.append(&mut below);
                    proof {
                        let upto = children.take(i + 1);
                        assert(upto.drop_last() =~= children.take(i as int));
                        assert(upto.last() == children[i as int]);
                        assert(texts_view(out@) =~= texts_view(before) + texts_view(added));
                    }
                    i = i + 1;
                }
                assert(children.take(i as int) =~= children);
                out
            },
        }
    }
}

/// Whether `name` is a segment name.
fn is_segment_name(name: &str) -> (r: bool)
    ensures
        r == is_segment(name@),
{
    let chars: Vec<char> = to_chars(name);
    if chars.len() == 0 {
        return false;
    }
    let mut i: usize = 0;
    while i < chars.len()
        invariant
            i <= chars.len(),
            chars@ == name@,
            forall|j: int| 0 <= j < i ==> chars@[j] != '/',
        decreases chars.len() - i,
    {
        if chars[i] == '/' {
            return false;
        }
        i = i + 1;
    }
    true
}

/// Writes the path of the child under `segment` of the node at `parent`.
fn child_path_string(parent: &String, segment: &str) -> (path: String)
    ensures
        path@ == child_path(parent@, segment@),
{
    let root: String = String::from_str("/");
    proof {
        reveal_strlit("/");
        assert(root@ =~= root_path());
    }
    let mut path: String = parent.clone();
    if *parent != root {
        path.append("/");
        assert(path@ =~= parent@ + seq!['/']);
    }
    path.append(segment);
    path
}

impl OSCQueryNode {
    /// Checks whether every node below this one stands where its path says,
    /// and no container has two children under one name.
    pub fn is_well_addressed(&self) -> (r: bool)
        ensures
            r == self@.well_addressed(),
        decreases self,
    {
        match &self.data {
            NodeData::Leaf(_) => true,
            NodeData::Internal(internal) => {
                let ghost children = children_view(internal.contents@);
                let ghost keys = keys_of(children);
                assert(keys =~= entry_keys(internal.contents@));
                let mut i: usize = 0;
                while i < internal.contents.len()
                    invariant
                        i <= internal.contents.len(),
                        self.data == NodeData::Internal(*internal),
                        self@.payload == Payload::Container(children),
                        children == children_view(internal.contents@),
                        keys == keys_of(children),
                        keys == entry_keys(internal.contents@),
                        forall|k: int|
                            0 <= k < i ==> {
                                &&& is_segment((#[trigger] children[k]).0)
                                &&& children[k].1.full_path == child_path(
                                    self@.full_path,
                                    children[k].0,
                                )
                                &&& children[k].1.well_addressed()
                            },
                        forall|k: int| 0 <= k < i ==> first_index(keys, #[trigger] keys[k]) == k,
                    decreases internal.contents.len() - i,
                {
                    let name: &String = &internal.contents[i].0;
                    let child: &OSCQueryNode = &internal.contents[i].1;
                    assert(children[i as int] == (name@, child@));
                    if !is_segment_name(name.as_str()) {
                        return false;
                    }
                    let expected: String = child_path_string(&self.full_path, name.as_str());
                    if child.full_path != expected {
                        return false;
                    }
                    if find(&internal.contents, name) != i {
                        proof {
                            if distinct(keys) {
                                assert forall|j: int| 0 <= j < i implies keys[j] != keys[i as int] by {}
                                crate::keys::lemma_first_index(keys, keys[i as int], i as int);
                            }
                        }
                        return false;
                    }
                    proof {
                        let data = self.data;
                        assert(decreases_to!(self => self.data));
                        assert(decreases_to!(data => data->Internal_0));
                        assert(decreases_to!(internal => internal.contents));
                    }
                    if !child.is_well_addressed() {
                        return false;
                    }
                    i = i + 1;
                }
                proof {
                    assert forall|a: int, b: int| 0 <= a < b < keys.len() implies keys[a]
                        != keys[b] by {
                        if keys[a] == keys[b] {
                            crate::keys::lemma_first_index_found(keys, keys[b]);
                        }
                    }
                }
                true
            },
        }
    }
}

/// A path is found at the node that bears it: looking up a node's own path
/// from that node gives the node.
pub proof fn lemma_own_path_finds_node(root: NodeTree)
    ensures
        root.node_at_path(root.full_path) == Some(root),
{
}

/// A lookup that finds a node finds one of the tree, and one that bears the
/// path.
pub proof fn lemma_found_bears_path(root: NodeTree, path: Seq<char>)
    ensures
        root.node_at_path(path) matches Some(node) ==> root.contains(node) && node.full_path
            == path,
    decreases root,
{
    if root.full_path != path {
        if let Payload::Container(children) = root.payload {
            if let Some(suffix) = suffix_below(root.full_path, path) {
                let i = first_index(keys_of(children), next_segment(suffix));
                if 0 <= i < children.len() {
                    lemma_found_bears_path(children[i].1, path);
                }
            }
        }
    }
}

/// A path that no node of the tree bears finds nothing.
pub proof fn lemma_absent_path_finds_nothing(root: NodeTree, path: Seq<char>)
    requires
        forall|node: NodeTree| root.contains(node) ==> node.full_path != path,
    ensures
        root.node_at_path(path) is None,
{
    lemma_found_bears_path(root, path);
}

/// The empty path finds nothing in a tree whose nodes all bear a path.
pub proof fn lemma_empty_path_finds_nothing(root: NodeTree)
    requires
        forall|node: NodeTree| root.contains(node) ==> node.full_path.len() > 0,
    ensures
        root.node_at_path(Seq::empty()) is None,
{
    lemma_found_bears_path(root, Seq::empty());
}

/// The path of a child is longer than its parent's and goes on below it,
/// unless the parent is the root, whose own `/` is the child's first.
proof fn lemma_child_path(parent: Seq<char>, segment: Seq<char>)
    requires
        is_segment(segment),
    ensures
        child_path(parent, segment).len() > parent.len(),
        child_path(parent, segment).len() >= 2 || parent.len() == 0,
        child_path(parent, segment) != root_path(),
        parent.is_prefix_of(child_path(parent, segment)),
        parent != root_path() ==> continues(child_path(parent, segment), parent),
{
    let path = child_path(parent, segment);
    assert(path.subrange(0, parent.len() as int) =~= parent);
    if parent.len() == 0 {
        assert(parent != root_path());
        assert(path[1] == segment[0]);
    }
}

/// In a tree whose nodes stand where their paths say, and whose root is not
/// at `/`, the path of every node goes on below the root's.
proof fn lemma_paths_continue(root: NodeTree, node: NodeTree)
    requires
        root.well_addressed(),
        root.contains(node),
        root.full_path != root_path(),
    ensures
        continues(node.full_path, root.full_path),
        node != root ==> node.full_path.len() > root.full_path.len(),
    decreases root,
{
    if node == root {
        assert(root.full_path.subrange(0, root.full_path.len() as int) =~= root.full_path);
    } else {
        let children = root.payload->Container_0;
        let i = choose|i: int| 0 <= i < children.len() && (#[trigger] children[i]).1.contains(node);
        let child = children[i].1;
        lemma_child_path(root.full_path, children[i].0);
        lemma_paths_continue(child, node);
        let own = root.full_path;
        let mid = child.full_path;
        let path = node.full_path;
        assert(path.subrange(0, own.len() as int) =~= mid.subrange(0, own.len() as int)) by {
            assert(mid =~= path.subrange(0, mid.len() as int));
        }
        assert(path[own.len() as int] == mid[own.len() as int]) by {
            assert(mid =~= path.subrange(0, mid.len() as int));
        }
    }
}

/// Where a segment is followed by the end or by a `/`, it is what
/// `next_segment` reads behind one character.
proof fn lemma_next_segment(suffix: Seq<char>, segment: Seq<char>)
    requires
        is_segment(segment),
        suffix.len() >= 1 + segment.len(),
        suffix.subrange(1, 1 + segment.len() as int) == segment,
        suffix.len() == 1 + segment.len() || suffix[1 + segment.len() as int] == '/',
    ensures
        next_segment(suffix) == segment,
{
    let rest = suffix.skip(1);
    let k = segment.len() as int;
    assert forall|j: int| 0 <= j < k implies rest[j] != '/' by {
        assert(rest[j] == suffix.subrange(1, 1 + k)[j]);
    }
    lemma_until_slash_step(rest, k);
    let tail = rest.skip(k);
    if suffix.len() > 1 + k {
        assert(tail[0] == suffix[1 + k]);
    }
    assert(until_slash(tail) == 0);
    assert(rest.take(k) =~= segment);
}

/// Addressing by path is faithful: in a tree whose nodes stand where their
/// paths say, the path of any node of the tree finds that node.
pub proof fn lemma_path_finds_its_node(root: NodeTree, node: NodeTree)
    requires
        root.well_addressed(),
        root.contains(node),
    ensures
        root.node_at_path(node.full_path) == Some(node),
    decreases root,
{
    if node != root {
        let children = root.payload->Container_0;
        let i = choose|i: int| 0 <= i < children.len() && (#[trigger] children[i]).1.contains(node);
        let child = children[i].1;
        let segment = children[i].0;
        let own = root.full_path;
        let mid = child.full_path;
        let path = node.full_path;
        lemma_child_path(own, segment);
        lemma_paths_continue(child, node);
        lemma_path_finds_its_node(child, node);
        assert(mid =~= path.subrange(0, mid.len() as int));
        assert(path != own);
        let suffix = if own == root_path() {
            path
        } else {
            path.skip(own.len() as int)
        };
        assert(suffix_below(own, path) == Some(suffix)) by {
            if own != root_path() {
                assert(own =~= mid.subrange(0, own.len() as int));
                assert(path.subrange(0, own.len() as int) =~= mid.subrange(0, own.len() as int));
            }
        }
        assert(next_segment(suffix) == segment) by {
            if own == root_path() {
                assert(suffix.subrange(1, 1 + segment.len() as int) =~= segment) by {
                    assert forall|j: int| 0 <= j < segment.len() implies suffix[1 + j]
                        == segment[j] by {
                        assert(path[1 + j] == mid[1 + j]);
                    }
                }
            } else {
                assert(suffix.subrange(1, 1 + segment.len() as int) =~= segment) by {
                    assert forall|j: int| 0 <= j < segment.len() implies suffix[1 + j]
                        == segment[j] by {
                        assert(path[own.len() + 1 + j] == mid[own.len() + 1 + j]);
                    }
                }
            }
            lemma_next_segment(suffix, segment);
        }
        let keys = keys_of(children);
        assert(first_index(keys, segment) == i) by {
            assert(keys[i] == segment);
            assert forall|j: int| 0 <= j < i implies keys[j] != segment by {
                assert(keys[j] != keys[i]);
            }
            crate::keys::lemma_first_index(keys, segment, i);
        }
    }
}

/// There are as many leaf paths as leaves.
pub proof fn lemma_leaf_params_len(root: NodeTree)
    ensures
        root.leaf_params().len() == root.leaf_count(),
    decreases root,
{
    if let Payload::Container(children) = root.payload {
        lemma_leaves_of_len(children);
    }
}

/// There are as many leaf paths under `children` as leaves.
pub proof fn lemma_leaves_of_len(children: Seq<(Seq<char>, NodeTree)>)
    ensures
        leaves_of(children).len() == leaf_count_of(children),
    decreases children,
{
    if children.len() > 0 {
        lemma_leaves_of_len(children.drop_last());
        lemma_leaf_params_len(children.last().1);
    }
}

/// Each path that `leaves_of` lists is listed for one of the children.
proof fn lemma_listed_under(children: Seq<(Seq<char>, NodeTree)>, path: Seq<char>) -> (k: int)
    requires
        leaves_of(children).contains(path),
    ensures
        0 <= k < children.len(),
        children[k].1.leaf_params().contains(path),
    decreases children.len(),
{
    let front = children.drop_last();
    let i = choose|i: int| 0 <= i < leaves_of(children).len() && leaves_of(children)[i] == path;
    if i < leaves_of(front).len() {
        assert(leaves_of(front)[i] == path);
        let k = lemma_listed_under(front, path);
        assert(front[k] == children[k]);
        k
    } else {
        let below = children.last().1.leaf_params();
        assert(below[i - leaves_of(front).len()] == path);
        children.len() - 1
    }
}

/// Each path that is listed for a child is listed by `leaves_of`.
proof fn lemma_lists_child(children: Seq<(Seq<char>, NodeTree)>, k: int, path: Seq<char>)
    requires
        0 <= k < children.len(),
        children[k].1.leaf_params().contains(path),
    ensures
        leaves_of(children).contains(path),
    decreases children.len(),
{
    let front = children.drop_last();
    let below = children.last().1.leaf_params();
    if k < children.len() - 1 {
        assert(front[k] == children[k]);
        lemma_lists_child(front, k, path);
        let i = choose|i: int| 0 <= i < leaves_of(front).len() && leaves_of(front)[i] == path;
        assert(leaves_of(children)[i] == path);
    } else {
        let j = choose|j: int| 0 <= j < below.len() && below[j] == path;
        assert(leaves_of(children)[leaves_of(front).len() + j] == path);
    }
}

/// Only leaves are listed: each listed path is borne by a leaf of the tree.
pub proof fn lemma_listed_is_leaf(root: NodeTree, path: Seq<char>) -> (leaf: NodeTree)
    requires
        root.leaf_params().contains(path),
    ensures
        root.contains(leaf),
        leaf.payload is Leaf,
        leaf.full_path == path,
    decreases root,
{
    match root.payload {
        Payload::Leaf { .. } => {
            assert(root.leaf_params()[0] == root.full_path);
            root
        },
        Payload::Container(children) => {
            let k = lemma_listed_under(children, path);
            let leaf = lemma_listed_is_leaf(children[k].1, path);
            assert(root.contains(leaf));
            leaf
        },
    }
}

/// Every leaf is listed: the path of each leaf of the tree is among the
/// leaf paths.
pub proof fn lemma_leaf_is_listed(root: NodeTree, leaf: NodeTree)
    requires
        root.contains(leaf),
        leaf.payload is Leaf,
    ensures
        root.leaf_params().contains(leaf.full_path),
    decreases root,
{
    if root == leaf {
        assert(root.leaf_params()[0] == leaf.full_path);
    } else {
        let children = root.payload->Container_0;
        let i = choose|i: int| 0 <= i < children.len() && (#[trigger] children[i]).1.contains(leaf);
        lemma_leaf_is_listed(children[i].1, leaf);
        lemma_lists_child(children, i, leaf.full_path);
    }
}

/// No container is listed: in a tree whose nodes stand where their paths
/// say, the path of a container is not among the leaf paths.
pub proof fn lemma_container_is_not_listed(root: NodeTree, container: NodeTree)
    requires
        root.well_addressed(),
        root.contains(container),
        container.payload is Container,
    ensures
        !root.leaf_params().contains(container.full_path),
{
    if root.leaf_params().contains(container.full_path) {
        let leaf = lemma_listed_is_leaf(root, container.full_path);
        lemma_path_finds_its_node(root, leaf);
        lemma_path_finds_its_node(root, container);
    }
}

/// A path cannot go on below two children of one node.
proof fn lemma_children_part(
    own: Seq<char>,
    first: Seq<char>,
    second: Seq<char>,
    path: Seq<char>,
)
    requires
        is_segment(first),
        is_segment(second),
        first != second,
        continues(path, child_path(own, first)),
    ensures
        !continues(path, child_path(own, second)),
{
    let one = child_path(own, first);
    let two = child_path(own, second);
    if continues(path, two) {
        assert(one =~= path.subrange(0, one.len() as int));
        assert(two =~= path.subrange(0, two.len() as int));
        let base = one.len() - first.len();
        assert(two.len() - second.len() == base);
        if first.len() == second.len() {
            assert(first =~= second) by {
                assert forall|j: int| 0 <= j < first.len() implies first[j] == second[j] by {
                    assert(one[base + j] == first[j]);
                    assert(two[base + j] == second[j]);
                    assert(path[base + j] == one[base + j]);
                    assert(path[base + j] == two[base + j]);
                }
            }
        } else if first.len() < second.len() {
            assert(path[one.len() as int] == two[one.len() as int]);
            assert(two[one.len() as int] == second[first.len() as int]);
        } else {
            assert(path[two.len() as int] == one[two.len() as int]);
            assert(one[two.len() as int] == first[second.len() as int]);
        }
    }
}

/// In a tree whose nodes stand where their paths say, no path is listed
/// twice: the leaf paths are as many as the leaves, as a set too.
pub proof fn lemma_leaf_params_distinct(root: NodeTree)
    requires
        root.well_addressed(),
    ensures
        root.leaf_params().no_duplicates(),
        root.leaf_params().to_set().len() == root.leaf_count(),
    decreases root,
{
    if let Payload::Container(children) = root.payload {
        lemma_leaves_of_distinct(root, children.len() as int);
        assert(children.take(children.len() as int) =~= children);
    }
    root.leaf_params().unique_seq_to_set();
    lemma_leaf_params_len(root);
}

/// The leaf paths of the first `n` children of `root` are distinct.
proof fn lemma_leaves_of_distinct(root: NodeTree, n: int)
    requires
        root.well_addressed(),
        root.payload is Container,
        0 <= n <= root.payload->Container_0.len(),
    ensures
        leaves_of(root.payload->Container_0.take(n)).no_duplicates(),
    decreases root, n,
{
    let children = root.payload->Container_0;
    let upto = children.take(n);
    if n > 0 {
        let front = upto.drop_last();
        assert(front =~= children.take(n - 1));
        assert(upto.last() == children[n - 1]);
        let child = children[n - 1].1;
        lemma_leaves_of_distinct(root, n - 1);
        lemma_leaf_params_distinct(child);
        let before = leaves_of(front);
        let below = child.leaf_params();
        assert forall|i: int, j: int| 0 <= i < before.len() && 0 <= j < below.len() implies before[i]
            != below[j] by {
            let path = before[i];
            if path == below[j] {
                let k = lemma_listed_under(front, path);
                assert(front[k] == children[k]);
                let other = children[k].1;
                let leaf = lemma_listed_is_leaf(other, path);
                let twin = lemma_listed_is_leaf(child, path);
                lemma_child_path(root.full_path, children[k].0);
                lemma_child_path(root.full_path, children[n - 1].0);
                lemma_paths_continue(other, leaf);
                lemma_paths_continue(child, twin);
                assert(keys_of(children)[k] != keys_of(children)[n - 1]);
                lemma_children_part(root.full_path, children[k].0, children[n - 1].0, path);
            }
        }
        vstd::seq_lib::lemma_no_dup_in_concat(before, below);
    }
}

} // verus!
