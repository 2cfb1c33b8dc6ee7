//! The tree walker: which entries a walk finds under a root, and in what
//! order.

use vstd::prelude::*;
use crate::entry::{entry_views, Entry, EntryKind, EntryView};
use crate::rules::{
    check_exclude,
    check_include_directory,
    check_include_file,
    should_exclude,
    should_include_directory,
    should_include_file,
    Config,
    NodeKind,
    Rules,
};

verus! {

/// One child of a directory, as the storage lists it.
#[derive(Clone, Debug, PartialEq, Eq)]
pub struct Node {
    pub path: String,
    pub kind: NodeKind,
}

/// A node as the text of its path and its kind.
pub struct NodeView {
    pub path: Seq<char>,
    pub kind: NodeKind,
}

impl View for Node {
    type V = NodeView;

    open spec fn view(&self) -> NodeView {
        NodeView { path: self.path@, kind: self.kind }
    }
}

/// A directory tree held in memory: a node, and below it what the node
/// holds if it is a directory, in the order in which the storage lists it.
#[derive(Debug, PartialEq, Eq)]
pub struct Tree {
    pub node: Node,
    pub children: Vec<Tree>,
}

/// The entry that a walk reports for a node itself: none for a node that
/// the rules leave out, none for one that they do not keep, none for what
/// is neither directory nor file.
pub open spec fn reported(node: NodeView, rules: Rules) -> Seq<EntryView> {
    if should_exclude(node.path, node.kind, rules) {
        Seq::empty()
    } else {
        match node.kind {
            NodeKind::Directory => if should_include_directory(node.path, rules) {
                seq![EntryView { kind: EntryKind::Directory, path: node.path }]
            } else {
                Seq::empty()
            },
            NodeKind::File => if should_include_file(node.path, rules) {
                seq![EntryView { kind: EntryKind::File, path: node.path }]
            } else {
                Seq::empty()
            },
            NodeKind::Other => Seq::empty(),
        }
    }
}

/// Whether a walk goes down into a node: it is a directory that the rules
/// do not leave out, and the walk is recursive. Whether the rules keep the
/// directory itself plays no part.
pub open spec fn descends(node: NodeView, rules: Rules, is_recursive: bool) -> bool {
    is_recursive && node.kind == NodeKind::Directory && !should_exclude(
        node.path,
        node.kind,
        rules,
    )
}

/// The entries that a walk finds in a sequence of trees that stand side by
/// side: for each tree in turn what is reported for its node, then, where
/// the walk goes down into it, what is found below it.
pub open spec fn listing(forest: Seq<Tree>, rules: Rules, is_recursive: bool) -> Seq<EntryView>
    decreases forest,
{
    if forest.len() == 0 {
        Seq::empty()
    } else {
        let tree = forest[0];
        let below = if descends(tree.node@, rules, is_recursive) {
            listing(tree.children@, rules, is_recursive)
        } else {
            Seq::empty()
        };
        reported(tree.node@, rules) + below + listing(forest.skip(1), rules, is_recursive)
    }
}

/// The views of a sequence of nodes, element by element.
pub open spec fn node_views(nodes: Seq<Node>) -> Seq<NodeView> {
    Seq::new(nodes.len(), |i: int| nodes[i]@)
}

/// The nodes at the top of a sequence of trees.
pub open spec fn nodes_of(forest: Seq<Tree>) -> Seq<NodeView> {
    Seq::new(forest.len(), |i: int| forest[i].node@)
}

/// How far a walk gets without another directory listing.
pub struct Progress {
    /// What is reported on the way.
    pub found: Seq<EntryView>,
    /// The nodes that are left to look at afterwards, in their order.
    pub todo: Seq<NodeView>,
    /// The directory whose listing the walk then needs; none where the
    /// walk has come to its end.
    pub request: Option<Seq<char>>,
}

/// A walk looks at the nodes of `todo` in turn and reports on each, until
/// it comes to one that it goes down into, or to the end.
pub open spec fn settled(todo: Seq<NodeView>, rules: Rules, is_recursive: bool) -> Progress
    decreases todo.len(),
{
    if todo.len() == 0 {
        Progress { found: Seq::empty(), todo: Seq::empty(), request: None }
    } else if descends(todo[0], rules, is_recursive) {
        Progress {
            found: reported(todo[0], rules),
            todo: todo.skip(1),
            request: Some(todo[0].path),
        }
    } else {
        let rest = settled(todo.skip(1), rules, is_recursive);
        Progress { found: reported(todo[0], rules) + rest.found, ..rest }
    }
}

/// The nodes of a work list in the order in which they are looked at: the
/// one that was put on it last comes first.
pub open spec fn stack_order(pending: Seq<Node>) -> Seq<NodeView> {
    Seq::new(pending.len(), |i: int| pending[pending.len() - 1 - i]@)
}

/// What the storage answers when a walk asks for a directory's listing.
#[derive(Clone, Debug, PartialEq, Eq)]
pub enum Listed {
    /// The children of the directory, in the order of the storage.
    Children(Vec<Node>),
    /// The directory could not be read.
    Unreadable,
}

/// A directory could not be read: the walk ends there.
#[derive(Clone, Debug, PartialEq, Eq)]
pub struct DirectoryUnreadable {
    pub path: String,
}

/// A walk in progress. It keeps a work list in place of a call stack: it
/// asks for one directory's listing at a time, and whoever drives it reads
/// the directory and hands the listing over.
#[derive(Debug)]
pub struct Walker<'a> {
    config: &'a Config,
    is_recursive: bool,
    pending: Vec<Node>,
    found: Vec<Entry>,
    request: Option<String>,
}

impl<'a> Walker<'a> {
    /// The rules that the walk filters by.
    pub closed spec fn rules(&self) -> Rules {
        self.config@
    }

    /// Whether the walk goes down into directories.
    pub closed spec fn is_recursive(&self) -> bool {
        self.is_recursive
    }

    /// The entries found so far, in the order of the walk.
    pub closed spec fn found(&self) -> Seq<EntryView> {
        entry_views(self.found@)
    }

    /// The nodes that are listed and not yet looked at, the next one
    /// first.
    pub closed spec fn todo(&self) -> Seq<NodeView> {
        stack_order(self.pending@)
    }

    /// The directory whose listing the walk waits for; none where the walk
    /// has come to its end.
    pub closed spec fn request(&self) -> Option<Seq<char>> {
        match self.request {
            Some(path) => Some(path@),
            None => None,
        }
    }

    /// A walk that starts below `root`: it has found nothing yet and waits
    /// for the listing of `root`. The root itself is not filtered and not
    /// reported.
    pub fn new(root: String, is_recursive: bool, config: &'a Config) -> (walker: Walker<'a>)
        ensures
            walker.rules() == config@,
            walker.is_recursive() == is_recursive,
            walker.found() == Seq::<EntryView>::empty(),
            walker.todo() == Seq::<NodeView>::empty(),
            walker.request() == Some(root@),
    {
        let walker = Walker {
            config,
            is_recursive,
            pending: Vec::new(),
            found: Vec::new(),
            request: Some(root),
        };
        assert(walker.found() =~= Seq::empty());
        assert(walker.todo() =~= Seq::empty());
        walker
    }

    /// The directory whose listing the walk waits for.
    pub fn wanted(&self) -> (path: Option<&str>)
        ensures
            match path {
                Some(p) => self.request() == Some(p@),
                None => self.request() is None,
            },
    {
        match &self.request {
            Some(path) => Some(path.as_str()),
            None => None,
        }
    }

    /// The number of nodes that are listed and not yet looked at.
    pub fn remaining(&self) -> (n: usize)
        ensures
            n == self.todo().len(),
    {
        self.pending.len()
    }

    /// Takes the answer of the storage for the directory that the walk
    /// waits for. An unreadable directory ends the walk with an error and
    /// leaves it as it was. A listing is put before the nodes that were
    /// left, and the walk goes on as far as it gets without another
    /// listing. A walk that waits for nothing stays as it is.
    #[verifier::loop_isolation(false)]
    pub fn supply(&mut self, listed: Listed) -> (r: Result<(), DirectoryUnreadable>)
        ensures
            final(self).rules() == old(self).rules(),
            final(self).is_recursive() == old(self).is_recursive(),
            match (old(self).request(), listed) {
                (None, _) => {
                    &&& r is Ok
                    &&& final(self).found() == old(self).found()
                    &&& final(self).todo() == old(self).todo()
                    &&& final(self).request() is None
                },
                (Some(dir), Listed::Unreadable) => {
                    &&& r matches Err(e) && e.path@ == dir
                    &&& final(self).found() == old(self).found()
                    &&& final(self).todo() == old(self).todo()
                    &&& final(self).request() == Some(dir)
                },
                (Some(_), Listed::Children(nodes)) => {
                    let next = settled(
                        node_views(nodes@) + old(self).todo(),
                        old(self).rules(),
                        old(self).is_recursive(),
                    );
                    &&& r is Ok
                    &&& final(self).found() == old(self).found() + next.found
                    &&& final(self).todo() == next.todo
                    &&& final(self).request() == next.request
                },
            },
    {
        let dir = match &self.request {
            Some(path) => path.clone(),
            None => {
                return Ok(());
            },
        };
        let mut nodes = match listed {
            Listed::Children(nodes) => nodes,
            Listed::Unreadable => {
                return Err(DirectoryUnreadable { path: dir });
            },
        };
        let ghost listing = node_views(nodes@);
        let ghost before = self.todo();
        let ghost start = listing + before;
        assert(listing.skip(listing.len() as int) + before =~= before);
        while nodes.len() > 0
            invariant
                nodes.len() <= listing.len(),
                node_views(nodes@) == listing.take(nodes.len() as int),
                stack_order(self.pending@) == listing.skip(nodes.len() as int) + before,
                self.config == old(self).config,
                self.is_recursive == old(self).is_recursive,
                self.found == old(self).found,
                self.request == old(self).request,
            decreases nodes.len(),
        {
            let ghost taken = node_views(nodes@);
            let ghost stacked = stack_order(self.pending@);
            let node = nodes.pop().unwrap();
            assert(node@ == taken[nodes.len() as int]);
            self.pending.push(node);
            assert(stack_order(self.pending@) =~= seq![node@] + stacked);
            assert(node_views(nodes@) =~= listing.take(nodes.len() as int));
            assert(stack_order(self.pending@) =~= listing.skip(nodes.len() as int) + before);
        }
        assert(listing.skip(0) =~= listing);
        self.request = None;
        let ghost found_before = self.found();
        let ghost goal = settled(start, self.rules(), self.is_recursive());
        assert(found_before + goal.found =~= self.found() + goal.found);
        while self.pending.len() > 0
            invariant
                self.config == old(self).config,
                self.is_recursive == old(self).is_recursive,
                self.request is None,
                found_before + goal.found == self.found() + settled(
                    self.todo(),
                    self.rules(),
                    self.is_recursive(),
                ).found,
                goal.todo == settled(self.todo(), self.rules(), self.is_recursive()).todo,
                goal.request == settled(self.todo(), self.rules(), self.is_recursive()).request,
            decreases self.pending.len(),
        {
            let ghost todo = self.todo();
            let ghost found = self.found();
            let node = self.pending.pop().unwrap();
            assert(todo[0] == node@);
            assert(self.todo() =~= todo.skip(1));
            if check_exclude(node.path.as_str(), node.kind, self.config) {
                assert(reported(node@, self.rules()) =~= Seq::empty());
                assert(found + reported(node@, self.rules()) =~= found);
                continue ;
            }
            match node.kind {
                NodeKind::Directory => {
                    let descend = self.is_recursive;
                    let next = if descend {
                        Some(node.path.clone())
                    } else {
                        None
                    };
                    if check_include_directory(node.path.as_str(), self.config) {
                        self.found.push(Entry { kind: EntryKind::Directory, path: node.path });
                        assert(self.found() =~= found + reported(node@, self.rules()));
                    } else {
                        assert(self.found() =~= found + reported(node@, self.rules()));
                    }
                    if descend {
                        self.request = next;
                        assert(self.found() + Seq::empty() =~= self.found());
                        return Ok(());
                    }
                },
                NodeKind::File => {
                    if check_include_file(node.path.as_str(), self.config) {
                        self.found.push(Entry { kind: EntryKind::File, path: node.path });
                        assert(self.found() =~= found + reported(node@, self.rules()));
                    } else {
                        assert(self.found() =~= found + reported(node@, self.rules()));
                    }
                },
                NodeKind::Other => {
                    assert(self.found() =~= found + reported(node@, self.rules()));
                },
            }
            assert((found + reported(node@, self.rules())) + settled(
                todo.skip(1),
                self.rules(),
                self.is_recursive(),
            ).found =~= found + (reported(node@, self.rules()) + settled(
                todo.skip(1),
                self.rules(),
                self.is_recursive(),
            ).found));
        }
        assert(self.found() + Seq::empty() =~= self.found());
        Ok(())
    }

    /// Ends the walk and hands over what it has found.
    pub fn into_found(self) -> (entries: Vec<Entry>)
        ensures
            entry_views(entries@) == self.found(),
    {
        self.found
    }
}

/// The number of nodes in a sequence of trees.
pub open spec fn weight(forest: Seq<Tree>) -> nat
    decreases forest,
{
    if forest.len() == 0 {
        0
    } else {
        1 + weight(forest[0].children@) + weight(forest.skip(1))
    }
}

/// The trees of a work list in the order in which they are looked at.
pub open spec fn stack_forest(pending: Seq<&Tree>) -> Seq<Tree> {
    Seq::new(pending.len(), |i: int| *pending[pending.len() - 1 - i])
}

/// A walk of two sequences of trees, one after the other, finds what it
/// finds in the first and then what it finds in the second.
pub proof fn lemma_listing_concat(a: Seq<Tree>, b: Seq<Tree>, rules: Rules, is_recursive: bool)
    ensures
        listing(a + b, rules, is_recursive) == listing(a, rules, is_recursive) + listing(
            b,
            rules,
            is_recursive,
        ),
    decreases a.len(),
{
    if a.len() == 0 {
        assert(a + b =~= b);
        assert(listing(a, rules, is_recursive) + listing(b, rules, is_recursive) =~= listing(
            b,
            rules,
            is_recursive,
        ));
    } else {
        assert((a + b)[0] == a[0]);
        assert((a + b).skip(1) =~= a.skip(1) + b);
        lemma_listing_concat(a.skip(1), b, rules, is_recursive);
        assert(listing(a + b, rules, is_recursive) =~= listing(a, rules, is_recursive) + listing(
            b,
            rules,
            is_recursive,
        ));
    }
}

/// Two sequences of trees together hold the nodes of both.
pub proof fn lemma_weight_concat(a: Seq<Tree>, b: Seq<Tree>)
    ensures
        weight(a + b) == weight(a) + weight(b),
    decreases a.len(),
{
    if a.len() == 0 {
        assert(a + b =~= b);
    } else {
        assert((a + b)[0] == a[0]);
        assert((a + b).skip(1) =~= a.skip(1) + b);
        lemma_weight_concat(a.skip(1), b);
    }
}

/// The walker's step agrees with the walk of a tree. Where the step ends
/// at the end of the trees, it has found all that the walk finds in them.
/// Where it ends by asking for a directory, that directory is one of the
/// trees, the nodes that are left are the trees after it, and the walk
/// finds what the step found, then what stands below that directory, then
/// what the trees after it hold.
pub proof fn lemma_step_follows_tree(forest: Seq<Tree>, rules: Rules, is_recursive: bool)
    ensures
        ({
            let step = settled(nodes_of(forest), rules, is_recursive);
            let at = forest.len() - step.todo.len() - 1;
            match step.request {
                None => {
                    &&& step.todo.len() == 0
                    &&& listing(forest, rules, is_recursive) == step.found
                },
                Some(path) => {
                    &&& 0 <= at < forest.len()
                    &&& path == forest[at].node.path@
                    &&& step.todo == nodes_of(forest.skip(at + 1))
                    &&& listing(forest, rules, is_recursive) == step.found + listing(
                        forest[at].children@,
                        rules,
                        is_recursive,
                    ) + listing(forest.skip(at + 1), rules, is_recursive)
                    &&& weight(forest) >= 1 + weight(forest[at].children@) + weight(
                        forest.skip(at + 1),
                    )
                },
            }
        }),
    decreases forest.len(),
{
    let todo = nodes_of(forest);
    if forest.len() > 0 {
        let rest = forest.skip(1);
        assert(todo.skip(1) =~= nodes_of(rest));
        assert(todo[0] == forest[0].node@);
        if descends(todo[0], rules, is_recursive) {
        } else {
            lemma_step_follows_tree(rest, rules, is_recursive);
            let step = settled(nodes_of(rest), rules, is_recursive);
            let here = reported(todo[0], rules);
            match step.request {
                None => {
                    assert(listing(forest, rules, is_recursive) =~= here + step.found);
                },
                Some(path) => {
                    let at = rest.len() - step.todo.len() - 1;
                    assert(rest[at] == forest[at + 1]);
                    assert(rest.skip(at + 1) =~= forest.skip(at + 2));
                    assert(listing(forest, rules, is_recursive) =~= (here + step.found) + listing(
                        forest[at + 1].children@,
                        rules,
                        is_recursive,
                    ) + listing(forest.skip(at + 2), rules, is_recursive));
                },
            }
        }
    }
}

/// One round of a walk that is driven over trees: the walk has found
/// `found`, goes down to the trees `below` and has the trees `left` still
/// to look at. After the walker's step what is found in all, and what is
/// left to do, is as before.
pub proof fn lemma_round(
    found: Seq<EntryView>,
    below: Seq<Tree>,
    left: Seq<Tree>,
    rules: Rules,
    is_recursive: bool,
)
    ensures
        ({
            let forest = below + left;
            let step = settled(nodes_of(forest), rules, is_recursive);
            let at = forest.len() - step.todo.len() - 1;
            let total = found + listing(below, rules, is_recursive) + listing(
                left,
                rules,
                is_recursive,
            );
            match step.request {
                None => {
                    &&& step.todo.len() == 0
                    &&& total == found + step.found
                },
                Some(path) => {
                    &&& 0 <= at < forest.len()
                    &&& path == forest[at].node.path@
                    &&& step.todo == nodes_of(forest.skip(at + 1))
                    &&& total == (found + step.found) + listing(
                        forest[at].children@,
                        rules,
                        is_recursive,
                    ) + listing(forest.skip(at + 1), rules, is_recursive)
                    &&& weight(below) + weight(left) >= 1 + weight(forest[at].children@) + weight(
                        forest.skip(at + 1),
                    )
                },
            }
        }),
{
    let forest = below + left;
    let step = settled(nodes_of(forest), rules, is_recursive);
    lemma_step_follows_tree(forest, rules, is_recursive);
    lemma_listing_concat(below, left, rules, is_recursive);
    lemma_weight_concat(below, left);
    let all = listing(forest, rules, is_recursive);
    let total = found + listing(below, rules, is_recursive) + listing(left, rules, is_recursive);
    assert(total =~= found + all);
    match step.request {
        None => {},
        Some(path) => {
            let at = forest.len() - step.todo.len() - 1;
            assert(total =~= (found + step.found) + listing(
                forest[at].children@,
                rules,
                is_recursive,
            ) + listing(forest.skip(at + 1), rules, is_recursive));
        },
    }
}

/// The children of `tree` as the storage would list them.
pub fn child_nodes(tree: &Tree) -> (nodes: Vec<Node>)
    ensures
        node_views(nodes@) == nodes_of(tree.children@),
{
    let mut nodes: Vec<Node> = Vec::new();
    let mut i: usize = 0;
    while i < tree.children.len()
        invariant
            i <= tree.children.len(),
            nodes.len() == i,
            forall|j: int| 0 <= j < i ==> nodes[j]@ == tree.children[j].node@,
        decreases tree.children.len() - i,
    {
        let child = &tree.children[i];
        nodes.push(Node { path: child.node.path.clone(), kind: child.node.kind });
        i += 1;
    }
    assert(node_views(nodes@) =~= nodes_of(tree.children@));
    nodes
}

/// The entries that a walk finds below the root of a tree held in memory,
/// in the order of the walk. The root itself is not filtered and not
/// reported.
pub fn get_list(root: &Tree, is_recursive: bool, config: &Config) -> (entries: Vec<Entry>)
    ensures
        entry_views(entries@) == listing(root.children@, config@, is_recursive),
{
    let ghost goal = listing(root.children@, config@, is_recursive);
    let mut walker = Walker::new(root.node.path.clone(), is_recursive, config);
    let mut mirror: Vec<&Tree> = Vec::new();
    let mut current: &Tree = root;
    assert(stack_forest(mirror@) =~= Seq::empty());
    assert(nodes_of(stack_forest(mirror@)) =~= walker.todo());
    assert(walker.found() + goal + listing(stack_forest(mirror@), config@, is_recursive) =~= goal);
    while walker.wanted().is_some()
        invariant
            walker.rules() == config@,
            walker.is_recursive() == is_recursive,
            nodes_of(stack_forest(mirror@)) == walker.todo(),
            walker.request() is Some ==> goal == walker.found() + listing(
                current.children@,
                config@,
                is_recursive,
            ) + listing(stack_forest(mirror@), config@, is_recursive),
            walker.request() is None ==> goal == walker.found(),
        decreases
                if walker.request() is Some {
                    1 + weight(current.children@) + weight(stack_forest(mirror@))
                } else {
                    0
                },
    {
        let ghost here = *current;
        let ghost left = stack_forest(mirror@);
        let ghost forest = here.children@ + left;
        let ghost found = walker.found();
        let ghost step = settled(nodes_of(forest), config@, is_recursive);
        let nodes = child_nodes(current);
        assert(node_views(nodes@) + walker.todo() =~= nodes_of(forest));
        stack_children(current, &mut mirror);
        let _ = walker.supply(Listed::Children(nodes));
        let keep = walker.remaining();
        proof {
            lemma_round(found, here.children@, left, config@, is_recursive);
            assert(stack_forest(mirror@).len() == mirror.len());
            assert(forest.skip(0) =~= forest);
        }
        while mirror.len() > keep
            invariant
                keep <= mirror.len() <= forest.len(),
                stack_forest(mirror@) == forest.skip(forest.len() - mirror.len()),
                mirror.len() < forest.len() ==> *current == forest[forest.len() - mirror.len() - 1],
            decreases mirror.len(),
        {
            let ghost stacked = stack_forest(mirror@);
            current = mirror.pop().unwrap();
            assert(*current == stacked[0]);
            assert(stack_forest(mirror@) =~= stacked.skip(1));
            assert(stack_forest(mirror@) =~= forest.skip(forest.len() - mirror.len()));
        }
        proof {
            if step.request is None {
                assert(nodes_of(stack_forest(mirror@)) =~= walker.todo());
            }
        }
    }
    walker.into_found()
}

/// Puts the children of `tree` on the work list, the first child last, so
/// that it is looked at first.
fn stack_children<'t>(tree: &'t Tree, mirror: &mut Vec<&'t Tree>)
    ensures
        stack_forest(final(mirror)@) == tree.children@ + stack_forest(old(mirror)@),
{
    let ghost left = stack_forest(mirror@);
    let mut i: usize = tree.children.len();
    assert(tree.children@.skip(i as int) + left =~= left);
    while i > 0
        invariant
            i <= tree.children.len(),
            stack_forest(mirror@) == tree.children@.skip(i as int) + left,
        decreases i,
    {
        i -= 1;
        let ghost stacked = stack_forest(mirror@);
        mirror.push(&tree.children[i]);
        assert(stack_forest(mirror@) =~= seq![tree.children[i as int]] + stacked);
        assert(stack_forest(mirror@) =~= tree.children@.skip(i as int) + left);
    }
    assert(tree.children@.skip(0) =~= tree.children@);
}

} // verus!
