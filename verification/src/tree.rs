//! The decision points of a game tree.
//!
//! The accumulator tables of the solver hold one pair of matrices for every
//! decision point, keyed by its public information set. `build_tree` walks a
//! game depth first and lists the decision points with the shape of their
//! matrices: one row for each action, one column for each private hand. A
//! `DecisionTree` is that list for a whole game. It gives every decision point
//! a slot, by which tables can be indexed, and finds the slot of a public
//! information set.
//!
//! The keys are kept in a `Vec` and compared one by one. vstd models a hash
//! map only for keys that are integers, and a history has no bound on its
//! length, so there is no integer to stand for it. What a map gives, that no
//! key occurs twice, is the invariant of the tree.

use crate::game_node::{GameNode, PublicInfoSet};
use vstd::prelude::*;

verus! {

/// A decision point and the shape of its accumulator matrices.
#[derive(Debug)]
pub struct DecisionPoint {
    /// The public information set that identifies the decision point.
    pub info_set: PublicInfoSet,
    /// Number of actions: the rows of a matrix.
    pub num_actions: usize,
    /// Number of private hands: the columns of a matrix.
    pub num_hands: usize,
}

/// Mathematical description of a `DecisionPoint`.
pub struct Shape {
    /// The public information set.
    pub key: Seq<u8>,
    /// Number of actions.
    pub actions: nat,
    /// Number of private hands.
    pub hands: nat,
}

impl View for DecisionPoint {
    type V = Shape;

    open spec fn view(&self) -> Shape {
        Shape {
            key: self.info_set@,
            actions: self.num_actions as nat,
            hands: self.num_hands as nat,
        }
    }
}

/// The descriptions of a list of decision points.
pub open spec fn shapes(points: Seq<DecisionPoint>) -> Seq<Shape> {
    points.map_values(|d: DecisionPoint| d@)
}

/// The decision points of the subtree under `m`, in depth-first order: the
/// node itself unless it is terminal, then those under each action in turn.
pub open spec fn decision_points<G: GameNode>(m: G::V) -> Seq<Shape>
    decreases G::depth_left(m), G::fan_out(m) + 1,
{
    if G::valid(m) && !G::terminal(m) {
        seq![shape_of::<G>(m)] + decision_points_from::<G>(m, 0)
    } else {
        Seq::empty()
    }
}

/// The decision points under the actions `from`, `from + 1`, ... of `m`.
pub open spec fn decision_points_from<G: GameNode>(m: G::V, from: nat) -> Seq<Shape>
    decreases G::depth_left(m), G::fan_out(m) - from,
{
    if G::valid(m) && !G::terminal(m) && from < G::fan_out(m) {
        proof {
            G::lemma_successor(m, from);
        }
        decision_points::<G>(G::successor(m, from)) + decision_points_from::<G>(m, from + 1)
    } else {
        Seq::empty()
    }
}

/// Every decision point under `m` is keyed by a history that extends that of
/// `m`, and has the number of hands of `m` and at least one action.
pub proof fn lemma_decision_points_extend<G: GameNode>(m: G::V, i: int)
    requires
        G::valid(m),
        0 <= i < decision_points::<G>(m).len(),
    ensures
        G::history(m).is_prefix_of(decision_points::<G>(m)[i].key),
        decision_points::<G>(m)[i].hands == G::hand_count(m),
        1 <= decision_points::<G>(m)[i].actions <= 256,
    decreases G::depth_left(m), G::fan_out(m) + 1,
{
    G::lemma_decision_point(m);
    if i > 0 {
        lemma_decision_points_from_extend::<G>(m, 0, i - 1);
    }
}

/// Every decision point under the actions from `from` on is keyed by a
/// history that extends that of `m` by one of these actions and then further.
pub proof fn lemma_decision_points_from_extend<G: GameNode>(m: G::V, from: nat, i: int)
    requires
        G::valid(m),
        !G::terminal(m),
        0 <= i < decision_points_from::<G>(m, from).len(),
    ensures
        G::history(m).is_prefix_of(decision_points_from::<G>(m, from)[i].key),
        decision_points_from::<G>(m, from)[i].key.len() > G::history(m).len(),
        from <= decision_points_from::<G>(m, from)[i].key[G::history(m).len() as int]
            < G::fan_out(m),
        decision_points_from::<G>(m, from)[i].hands == G::hand_count(m),
        1 <= decision_points_from::<G>(m, from)[i].actions <= 256,
    decreases G::depth_left(m), G::fan_out(m) - from,
{
    G::lemma_decision_point(m);
    G::lemma_successor(m, from);
    let child = G::successor(m, from);
    let first = decision_points::<G>(child);
    if i < first.len() {
        lemma_decision_points_extend::<G>(child, i);
        let key = first[i].key;
        assert(G::history(child).is_prefix_of(key));
        assert(key[G::history(m).len() as int] == G::history(child)[G::history(m).len() as int]);
    } else {
        lemma_decision_points_from_extend::<G>(m, from + 1, i - first.len());
    }
}

/// No two decision points under `m` share a key.
pub proof fn lemma_decision_points_distinct<G: GameNode>(m: G::V, i: int, j: int)
    requires
        G::valid(m),
        0 <= i < j < decision_points::<G>(m).len(),
    ensures
        decision_points::<G>(m)[i].key != decision_points::<G>(m)[j].key,
    decreases G::depth_left(m), G::fan_out(m) + 1,
{
    if i == 0 {
        lemma_decision_points_from_extend::<G>(m, 0, j - 1);
    } else {
        lemma_decision_points_from_distinct::<G>(m, 0, i - 1, j - 1);
    }
}

/// No two decision points under the actions from `from` on share a key.
pub proof fn lemma_decision_points_from_distinct<G: GameNode>(m: G::V, from: nat, i: int, j: int)
    requires
        G::valid(m),
        !G::terminal(m),
        0 <= i < j < decision_points_from::<G>(m, from).len(),
    ensures
        decision_points_from::<G>(m, from)[i].key != decision_points_from::<G>(m, from)[j].key,
    decreases G::depth_left(m), G::fan_out(m) - from,
{
    G::lemma_decision_point(m);
    G::lemma_successor(m, from);
    let child = G::successor(m, from);
    let first = decision_points::<G>(child);
    if j < first.len() {
        lemma_decision_points_distinct::<G>(child, i, j);
    } else if i >= first.len() {
        lemma_decision_points_from_distinct::<G>(m, from + 1, i - first.len(), j - first.len());
    } else {
        lemma_decision_points_extend::<G>(child, i);
        lemma_decision_points_from_extend::<G>(m, from + 1, j - first.len());
        let at = G::history(m).len() as int;
        assert(first[i].key[at] == G::history(child)[at]);
    }
}

/// The node reached from `m` by the actions of `path`, in turn.
pub open spec fn follow<G: GameNode>(m: G::V, path: Seq<nat>) -> G::V
    decreases path.len(),
{
    if path.len() == 0 {
        m
    } else {
        follow::<G>(G::successor(m, path[0]), path.drop_first())
    }
}

/// Whether every action of `path` is open where it is taken, starting at `m`.
pub open spec fn is_legal_path<G: GameNode>(m: G::V, path: Seq<nat>) -> bool
    decreases path.len(),
{
    path.len() == 0 || (!G::terminal(m) && path[0] < G::fan_out(m) && is_legal_path::<G>(
        G::successor(m, path[0]),
        path.drop_first(),
    ))
}

/// The description of the node `m` as a decision point.
pub open spec fn shape_of<G: GameNode>(m: G::V) -> Shape {
    Shape { key: G::history(m), actions: G::fan_out(m), hands: G::hand_count(m) }
}

/// What is listed under an action is listed under the actions from an earlier
/// one on.
proof fn lemma_listed_under_action<G: GameNode>(m: G::V, from: nat, action: nat, s: Shape)
    requires
        G::valid(m),
        !G::terminal(m),
        from <= action < G::fan_out(m),
        decision_points::<G>(G::successor(m, action)).contains(s),
    ensures
        decision_points_from::<G>(m, from).contains(s),
    decreases action - from,
{
    let first = decision_points::<G>(G::successor(m, from));
    let rest = decision_points_from::<G>(m, from + 1);
    if from == action {
        let i = choose|i: int| 0 <= i < first.len() && first[i] == s;
        assert((first + rest)[i] == s);
    } else {
        lemma_listed_under_action::<G>(m, from + 1, action, s);
        let i = choose|i: int| 0 <= i < rest.len() && rest[i] == s;
        assert((first + rest)[first.len() + i] == s);
    }
}

/// Every decision point that play can reach from `m` is listed: if the
/// actions of `path` are legal from `m` and do not end the game, the node they
/// lead to is among the decision points under `m`.
pub proof fn lemma_decision_points_complete<G: GameNode>(m: G::V, path: Seq<nat>)
    requires
        G::valid(m),
        is_legal_path::<G>(m, path),
        !G::terminal(follow::<G>(m, path)),
    ensures
        G::valid(follow::<G>(m, path)),
        decision_points::<G>(m).contains(shape_of::<G>(follow::<G>(m, path))),
    decreases path.len(),
{
    let root = seq![shape_of::<G>(m)];
    let under = decision_points_from::<G>(m, 0);
    if path.len() == 0 {
        assert((root + under)[0] == shape_of::<G>(m));
    } else {
        let s = shape_of::<G>(follow::<G>(m, path));
        G::lemma_successor(m, path[0]);
        lemma_decision_points_complete::<G>(G::successor(m, path[0]), path.drop_first());
        lemma_listed_under_action::<G>(m, 0, path[0], s);
        let i = choose|i: int| 0 <= i < under.len() && under[i] == s;
        assert((root + under)[1 + i] == s);
    }
}

/// Only decision points that play can reach from `m` are listed: the entry
/// at `i` describes the node that the actions of the returned path lead to,
/// and these actions are legal from `m` and do not end the game.
pub proof fn lemma_decision_points_sound<G: GameNode>(m: G::V, i: int) -> (path: Seq<nat>)
    requires
        G::valid(m),
        0 <= i < decision_points::<G>(m).len(),
    ensures
        is_legal_path::<G>(m, path),
        G::valid(follow::<G>(m, path)),
        !G::terminal(follow::<G>(m, path)),
        decision_points::<G>(m)[i] == shape_of::<G>(follow::<G>(m, path)),
    decreases G::depth_left(m), G::fan_out(m) + 1,
{
    if i == 0 {
        Seq::empty()
    } else {
        lemma_decision_points_from_sound::<G>(m, 0, i - 1)
    }
}

/// The same for the decision points under the actions from `from` on.
proof fn lemma_decision_points_from_sound<G: GameNode>(m: G::V, from: nat, i: int) -> (path: Seq<
    nat,
>)
    requires
        G::valid(m),
        !G::terminal(m),
        0 <= i < decision_points_from::<G>(m, from).len(),
    ensures
        path.len() > 0,
        is_legal_path::<G>(m, path),
        G::valid(follow::<G>(m, path)),
        !G::terminal(follow::<G>(m, path)),
        decision_points_from::<G>(m, from)[i] == shape_of::<G>(follow::<G>(m, path)),
    decreases G::depth_left(m), G::fan_out(m) - from,
{
    G::lemma_successor(m, from);
    let child = G::successor(m, from);
    let first = decision_points::<G>(child);
    if i < first.len() {
        let tail = lemma_decision_points_sound::<G>(child, i);
        let path = seq![from] + tail;
        assert(path.drop_first() =~= tail);
        path
    } else {
        lemma_decision_points_from_sound::<G>(m, from + 1, i - first.len())
    }
}

/// Appends the decision points of the subtree under `node` to `tree`.
pub fn build_tree<G: GameNode>(node: &G, tree: &mut Vec<DecisionPoint>)
    requires
        G::valid(node@),
    ensures
        shapes(final(tree)@) == shapes(old(tree)@) + decision_points::<G>(node@),
    decreases G::depth_left(node@),
{
    if node.is_terminal_node() {
        assert(shapes(tree@) + Seq::<Shape>::empty() =~= shapes(tree@));
        return ;
    }
    let num_actions = node.num_actions();
    let point = DecisionPoint {
        info_set: node.public_info_set().clone(),
        num_actions,
        num_hands: node.private_info_set_len(),
    };
    let ghost before = shapes(tree@);
    let ghost root = seq![shape_of::<G>(node@)];
    tree.push(point);
    assert(shapes(tree@) =~= before + root);
    let mut action: usize = 0;
    while action < num_actions
        invariant
            G::valid(node@),
            !G::terminal(node@),
            num_actions == G::fan_out(node@),
            action <= num_actions,
            shapes(tree@) + decision_points_from::<G>(node@, action as nat) == before + root
                + decision_points_from::<G>(node@, 0),
        decreases num_actions - action,
    {
        proof {
            G::lemma_successor(node@, action as nat);
        }
        let child = node.play(action);
        let ghost so_far = shapes(tree@);
        build_tree(&child, tree);
        assert(so_far + decision_points_from::<G>(node@, action as nat) =~= (so_far
            + decision_points::<G>(child@)) + decision_points_from::<G>(
            node@,
            (action + 1) as nat,
        ));
        action = action + 1;
    }
    assert(shapes(tree@) + Seq::<Shape>::empty() =~= shapes(tree@));
    assert(before + root + decision_points_from::<G>(node@, 0) =~= before + (root
        + decision_points_from::<G>(node@, 0)));
}

/// Whether no two entries of `points` share a key.
pub open spec fn keys_distinct(points: Seq<Shape>) -> bool {
    forall|i: int, j: int| 0 <= i < j < points.len() ==> points[i].key != points[j].key
}

/// The decision points of a game, each in a slot of its own.
#[derive(Debug)]
pub struct DecisionTree {
    points: Vec<DecisionPoint>,
}

impl View for DecisionTree {
    type V = Seq<Shape>;

    closed spec fn view(&self) -> Seq<Shape> {
        shapes(self.points@)
    }
}

/// Whether two byte strings are the same.
fn same_bytes(a: &Vec<u8>, b: &Vec<u8>) -> (r: bool)
    ensures
        r == (a@ == b@),
{
    if a.len() != b.len() {
        return false;
    }
    let mut i: usize = 0;
    while i < a.len()
        invariant
            i <= a.len() == b.len(),
            forall|k: int| 0 <= k < i ==> a@[k] == b@[k],
        decreases a.len() - i,
    {
        if a[i] != b[i] {
            return false;
        }
        i = i + 1;
    }
    assert(a@ =~= b@);
    true
}

impl DecisionTree {
    #[verifier::type_invariant]
    spec fn well_formed(self) -> bool {
        keys_distinct(shapes(self.points@))
    }

    /// Lists the decision points of the game that starts at `root`.
    pub fn build<G: GameNode>(root: &G) -> (tree: DecisionTree)
        requires
            G::valid(root@),
        ensures
            tree@ == decision_points::<G>(root@),
            keys_distinct(tree@),
    {
        let mut points: Vec<DecisionPoint> = Vec::new();
        build_tree(root, &mut points);
        proof {
            assert(shapes(Seq::<DecisionPoint>::empty()) + decision_points::<G>(root@)
                =~= decision_points::<G>(root@));
            assert forall|i: int, j: int| 0 <= i < j < shapes(points@).len() implies shapes(
                points@,
            )[i].key != shapes(points@)[j].key by {
                lemma_decision_points_distinct::<G>(root@, i, j);
            }
        }
        DecisionTree { points }
    }

    /// Number of decision points.
    pub fn len(&self) -> (n: usize)
        ensures
            n == self@.len(),
    {
        self.points.len()
    }

    /// The decision point in `slot`.
    pub fn point(&self, slot: usize) -> (p: &DecisionPoint)
        requires
            slot < self@.len(),
        ensures
            p@ == self@[slot as int],
    {
        &self.points[slot]
    }

    /// The slot of the decision point with the public information set
    /// `info_set`, if there is one.
    pub fn find(&self, info_set: &PublicInfoSet) -> (slot: Option<usize>)
        ensures
            match slot {
                Some(i) => i < self@.len() && forall|k: int|
                    0 <= k < self@.len() ==> (self@[k].key == info_set@ <==> k == i),
                None => forall|k: int| 0 <= k < self@.len() ==> self@[k].key != info_set@,
            },
    {
        proof {
            use_type_invariant(self);
        }
        let mut i: usize = 0;
        while i < self.points.len()
            invariant
                i <= self.points.len(),
                keys_distinct(shapes(self.points@)),
                forall|k: int| 0 <= k < i ==> shapes(self.points@)[k].key != info_set@,
            decreases self.points.len() - i,
        {
            if same_bytes(&self.points[i].info_set, info_set) {
                proof {
                    let all = shapes(self.points@);
                    assert(all[i as int].key == info_set@);
                    assert forall|k: int| 0 <= k < all.len() && k != i implies all[k].key
                        != info_set@ by {
                        if k < i {
                            assert(all[k].key != all[i as int].key);
                        } else {
                            assert(all[i as int].key != all[k].key);
                        }
                    }
                }
                return Some(i);
            }
            i = i + 1;
        }
        None
    }
}

} // verus!
