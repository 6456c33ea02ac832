//! Shortest paths in the knowledge graph: a breadth-first search within a
//! budget of depth and nodes, whose outcomes tell an exhausted graph from an
//! exhausted budget.
use crate::text::{same_text, texts};
use vstd::prelude::*;

verus! {

/// The number of visited nodes at which a search gives up.
pub const MAX_VISITED: usize = 500;

/// The two ends of a graph edge.
#[derive(Debug)]
pub struct GraphLink {
    pub source: String,
    pub target: String,
}

/// The edges at one node of the graph.
#[derive(Debug)]
pub struct Expansion {
    pub node: String,
    pub links: Vec<GraphLink>,
}

/// How a search for a path ended.
#[derive(Clone, Debug, PartialEq, Eq)]
pub enum GraphPathOutcome {
    Found(Vec<String>),
    NoPathWithinCompleteSearch,
    BudgetExceeded,
    InvalidEndpoint(String),
}

/// What a search for a path does next.
#[derive(Clone, Debug, PartialEq, Eq)]
pub enum PathStep {
    /// The search has ended.
    Done(GraphPathOutcome),
    /// The search needs the edges at this node.
    Expand(String),
}

/// A graph: the neighbours of every node, one for each of its edges.
pub type Graph = spec_fn(Seq<char>) -> Seq<Seq<char>>;

/// The other end of an edge at `node`.
pub open spec fn other_end(link: GraphLink, node: Seq<char>) -> Seq<char> {
    if link.source@ == node {
        link.target@
    } else {
        link.source@
    }
}

/// The neighbours of a node over its edges.
pub open spec fn neighbors(expansion: Expansion) -> Seq<Seq<char>> {
    Seq::new(expansion.links@.len(), |i: int| other_end(expansion.links@[i], expansion.node@))
}

/// The offset of the first expansion of `node`, or their number.
pub open spec fn expansion_index(known: Seq<Expansion>, node: Seq<char>) -> int
    decreases known.len(),
{
    if known.len() == 0 || known[0].node@ == node {
        0
    } else {
        1 + expansion_index(known.subrange(1, known.len() as int), node)
    }
}

/// The edges at `node` are known.
pub open spec fn is_known(known: Seq<Expansion>, node: Seq<char>) -> bool {
    0 <= expansion_index(known, node) < known.len()
}

/// The known neighbours of `node`.
pub open spec fn known_neighbors(known: Seq<Expansion>, node: Seq<char>) -> Seq<Seq<char>> {
    neighbors(known[expansion_index(known, node)])
}

/// The graph has, at every node whose edges are known, the known neighbours.
pub open spec fn agrees(g: Graph, known: Seq<Expansion>) -> bool {
    forall|node: Seq<char>| #[trigger]
        is_known(known, node) ==> g(node) == known_neighbors(known, node)
}

/// `p` leads along edges from `from` to `to`.
pub open spec fn is_path(g: Graph, p: Seq<Seq<char>>, from: Seq<char>, to: Seq<char>) -> bool {
    &&& p.len() > 0
    &&& p[0] == from
    &&& p.last() == to
    &&& forall|i: int| 0 <= i < p.len() - 1 ==> g(#[trigger] p[i]).contains(p[i + 1])
}

/// `p` is a path than which no other is shorter.
pub open spec fn is_shortest_path(
    g: Graph,
    p: Seq<Seq<char>>,
    from: Seq<char>,
    to: Seq<char>,
) -> bool {
    &&& is_path(g, p, from, to)
    &&& forall|q: Seq<Seq<char>>| #[trigger] is_path(g, q, from, to) ==> p.len() <= q.len()
}

/// `node` can be reached over at most `depth` edges.
pub open spec fn within(g: Graph, from: Seq<char>, node: Seq<char>, depth: int) -> bool {
    exists|p: Seq<Seq<char>>| #[trigger] is_path(g, p, from, node) && p.len() - 1 <= depth
}

/// As many nodes as a search visits at most can be reached over at most
/// `depth` edges.
pub open spec fn too_many_nodes(g: Graph, from: Seq<char>, depth: int) -> bool {
    exists|nodes: Seq<Seq<char>>|
        #![trigger nodes.no_duplicates()]
        {
            &&& nodes.len() >= MAX_VISITED
            &&& nodes.no_duplicates()
            &&& forall|i: int| 0 <= i < nodes.len() ==> within(g, from, #[trigger] nodes[i], depth)
        }
}

/// The graph goes on beyond `depth` edges: some edge leads from a node within
/// that depth to one that is not.
pub open spec fn goes_on(g: Graph, from: Seq<char>, depth: int) -> bool {
    exists|a: Seq<char>, b: Seq<char>|
        within(g, from, a, depth) && #[trigger] g(a).contains(b) && !within(g, from, b, depth)
}

/// A search over `depth` edges runs out of nodes: as many as a search visits at
/// most lie within them, fewer lie within one edge less, and the target is not
/// among these.
pub open spec fn runs_out(g: Graph, from: Seq<char>, to: Seq<char>, depth: int) -> bool {
    &&& too_many_nodes(g, from, depth)
    &&& !too_many_nodes(g, from, depth - 1)
    &&& !within(g, from, to, depth - 1)
}

/// `node` is the next that a search needs: it lies `depth` edges away, the edges
/// at all nodes that are closer are known, the target is farther, and fewer
/// nodes than a search visits at most lie within that depth.
pub open spec fn is_next(
    g: Graph,
    known: Seq<Expansion>,
    from: Seq<char>,
    to: Seq<char>,
    node: Seq<char>,
    depth: int,
) -> bool {
    &&& within(g, from, node, depth)
    &&& !within(g, from, node, depth - 1)
    &&& !within(g, from, to, depth)
    &&& !too_many_nodes(g, from, depth)
    &&& forall|closer: Seq<char>| #[trigger]
        within(g, from, closer, depth - 1) ==> is_known(known, closer)
}

/// What an outcome says of the graph.
pub open spec fn outcome_holds(
    g: Graph,
    from: Seq<char>,
    to: Seq<char>,
    max_depth: int,
    outcome: GraphPathOutcome,
) -> bool {
    match outcome {
        GraphPathOutcome::Found(path) => {
            &&& g(from).len() > 0
            &&& g(to).len() > 0
            &&& is_shortest_path(g, texts(path@), from, to)
            &&& path@.len() - 1 <= max_depth
            &&& !too_many_nodes(g, from, path@.len() - 2)
        },
        GraphPathOutcome::NoPathWithinCompleteSearch => {
            &&& g(from).len() > 0
            &&& g(to).len() > 0
            &&& forall|p: Seq<Seq<char>>| !#[trigger] is_path(g, p, from, to)
            &&& !goes_on(g, from, max_depth)
            &&& !too_many_nodes(g, from, max_depth)
        },
        GraphPathOutcome::BudgetExceeded => {
            &&& g(from).len() > 0
            &&& g(to).len() > 0
            &&& from != to
            &&& (exists|depth: int|
                depth <= max_depth && #[trigger] runs_out(g, from, to, depth)) || (!within(
                g,
                from,
                to,
                max_depth,
            ) && goes_on(g, from, max_depth) && !too_many_nodes(g, from, max_depth))
        },
        GraphPathOutcome::InvalidEndpoint(endpoint) => {
            ||| endpoint@ == from && g(from).len() == 0
            ||| endpoint@ == to && g(from).len() > 0 && g(to).len() == 0
        },
    }
}

/// A visited node: its name, the offset of the node it was reached from, and
/// its distance.
struct Visit {
    name: String,
    parent: usize,
    depth: usize,
}

/// `name` was visited at a distance of at most `depth`.
spec fn covered(order: Seq<Visit>, name: Seq<char>, depth: int) -> bool {
    exists|k: int|
        0 <= k < order.len() && (#[trigger] order[k]).name@ == name && order[k].depth <= depth
}

/// `name` was visited.
spec fn visited(order: Seq<Visit>, name: Seq<char>) -> bool {
    exists|k: int| 0 <= k < order.len() && (#[trigger] order[k]).name@ == name
}

/// Every neighbour of `order[i]` was visited next to it, or lies beyond the
/// depth budget.
spec fn settled(g: Graph, order: Seq<Visit>, i: int, max_depth: int, hit: bool) -> bool {
    forall|j: int|
        0 <= j < g(order[i].name@).len() ==> covered(
            order,
            #[trigger] g(order[i].name@)[j],
            order[i].depth + 1,
        ) || (hit && order[i].depth >= max_depth)
}

/// A neighbour of a node at the depth limit was not visited.
spec fn beyond(g: Graph, order: Seq<Visit>, i: int, j: int, max_depth: int) -> bool {
    &&& 0 <= i < order.len()
    &&& order[i].depth == max_depth
    &&& 0 <= j < g(order[i].name@).len()
    &&& !visited(order, g(order[i].name@)[j])
}

/// What holds of the visited nodes, whatever has been settled of them.
spec fn tree(
    g: Graph,
    order: Seq<Visit>,
    head: int,
    from: Seq<char>,
    to: Seq<char>,
    max_depth: int,
) -> bool {
    &&& order.len() > 0
    &&& order[0].name@ == from
    &&& order[0].depth == 0
    &&& from != to
    &&& 0 <= head <= order.len()
    &&& forall|i: int|
        0 < i < order.len() ==> (#[trigger] order[i]).parent < i && order[i].depth
            == order[order[i].parent as int].depth + 1 && g(
            order[order[i].parent as int].name@,
        ).contains(order[i].name@)
    &&& forall|i: int| 0 <= i < order.len() ==> (#[trigger] order[i]).depth <= max_depth
    &&& forall|i: int, j: int|
        0 <= i <= j < order.len() ==> (#[trigger] order[i]).depth <= (#[trigger] order[j]).depth
    &&& head < order.len() ==> forall|i: int|
        0 <= i < order.len() ==> (#[trigger] order[i]).depth <= order[head].depth + 1
    &&& forall|i: int, j: int|
        0 <= i < j < order.len() ==> (#[trigger] order[i]).name@ != (#[trigger] order[j]).name@
    &&& forall|i: int| 0 <= i < order.len() ==> (#[trigger] order[i]).name@ != to
}

/// What holds between two nodes of the search.
spec fn searching(
    g: Graph,
    order: Seq<Visit>,
    head: int,
    from: Seq<char>,
    to: Seq<char>,
    max_depth: int,
    hit: bool,
) -> bool {
    &&& tree(g, order, head, from, to, max_depth)
    &&& forall|i: int| 0 <= i < head ==> #[trigger] settled(g, order, i, max_depth, hit)
    &&& hit ==> exists|i: int, j: int| #[trigger] beyond(g, order, i, j, max_depth)
    &&& hit && head < order.len() ==> order[head].depth >= max_depth
}

/// The way on which `order[i]` was reached.
spec fn trail(order: Seq<Visit>, i: int) -> Seq<Seq<char>>
    decreases i,
{
    if i <= 0 {
        seq![order[0].name@]
    } else if order[i].parent < i {
        trail(order, order[i].parent as int).push(order[i].name@)
    } else {
        seq![order[0].name@]
    }
}

proof fn lemma_trail(
    g: Graph,
    order: Seq<Visit>,
    head: int,
    from: Seq<char>,
    to: Seq<char>,
    max_depth: int,
    i: int,
)
    requires
        tree(g, order, head, from, to, max_depth),
        0 <= i < order.len(),
    ensures
        is_path(g, trail(order, i), from, order[i].name@),
        trail(order, i).len() == order[i].depth + 1,
    decreases i,
{
    if i > 0 {
        let p = order[i].parent as int;
        lemma_trail(g, order, head, from, to, max_depth, p);
        let before = trail(order, p);
        let path = trail(order, i);
        assert(path == before.push(order[i].name@));
        assert forall|k: int| 0 <= k < path.len() - 1 implies g(#[trigger] path[k]).contains(
            path[k + 1],
        ) by {
            if k < before.len() - 1 {
                assert(g(before[k]).contains(before[k + 1]));
            } else {
                assert(path[k] == before.last());
            }
        }
    }
}

/// Extending the visited nodes keeps what was covered.
proof fn lemma_covered_grows(before: Seq<Visit>, more: Seq<Visit>, name: Seq<char>, depth: int)
    requires
        covered(before, name, depth),
        before.len() <= more.len(),
        forall|k: int| 0 <= k < before.len() ==> (#[trigger] more[k]) == before[k],
    ensures
        covered(more, name, depth),
{
    let k = choose|k: int|
        0 <= k < before.len() && (#[trigger] before[k]).name@ == name && before[k].depth <= depth;
    assert(more[k] == before[k]);
}

/// A path is covered step by step as long as the nodes on it are settled.
proof fn lemma_path_is_covered(
    g: Graph,
    order: Seq<Visit>,
    head: int,
    from: Seq<char>,
    to: Seq<char>,
    max_depth: int,
    hit: bool,
    p: Seq<Seq<char>>,
    end: Seq<char>,
    bound: int,
    j: int,
)
    requires
        tree(g, order, head, from, to, max_depth),
        forall|i: int| 0 <= i < head ==> #[trigger] settled(g, order, i, max_depth, hit),
        is_path(g, p, from, end),
        0 <= j < p.len(),
        bound <= max_depth || !hit,
        j <= bound,
        forall|i: int| 0 <= i < order.len() && (#[trigger] order[i]).depth < bound ==> i < head,
    ensures
        covered(order, p[j], j),
    decreases j,
{
    if j == 0 {
        assert(order[0].name@ == p[0]);
    } else {
        lemma_path_is_covered(
            g,
            order,
            head,
            from,
            to,
            max_depth,
            hit,
            p,
            end,
            bound,
            j - 1,
        );
        let k = choose|k: int|
            0 <= k < order.len() && (#[trigger] order[k]).name@ == p[j - 1] && order[k].depth <= j
                - 1;
        assert(k < head);
        assert(settled(g, order, k, max_depth, hit));
        assert(g(p[j - 1]).contains(p[j]));
        let nexts = g(p[j - 1]);
        let m = choose|m: int| 0 <= m < nexts.len() && nexts[m] == p[j];
        assert(covered(order, g(order[k].name@)[m], order[k].depth + 1));
        let c = choose|c: int|
            0 <= c < order.len() && (#[trigger] order[c]).name@ == p[j] && order[c].depth
                <= order[k].depth + 1;
        assert(order[c].name@ == p[j] && order[c].depth <= j);
    }
}

/// No path to the target is shorter than one over the node at hand.
proof fn lemma_found_is_shortest(
    g: Graph,
    order: Seq<Visit>,
    head: int,
    from: Seq<char>,
    to: Seq<char>,
    max_depth: int,
    hit: bool,
    q: Seq<Seq<char>>,
)
    requires
        tree(g, order, head, from, to, max_depth),
        forall|i: int| 0 <= i < head ==> #[trigger] settled(g, order, i, max_depth, hit),
        head < order.len(),
        is_path(g, q, from, to),
    ensures
        q.len() >= order[head].depth + 2,
{
    if q.len() <= order[head].depth + 1 {
        let bound = order[head].depth as int;
        assert(bound <= max_depth);
        lemma_path_is_covered(
            g,
            order,
            head,
            from,
            to,
            max_depth,
            hit,
            q,
            to,
            bound,
            q.len() - 1,
        );
        let k = choose|k: int|
            0 <= k < order.len() && (#[trigger] order[k]).name@ == q[q.len() - 1];
        assert(order[k].name@ != to);
    }
}

/// A search that has settled every visited node has covered all that is within
/// the depth.
proof fn lemma_exhausted_covers(
    g: Graph,
    order: Seq<Visit>,
    from: Seq<char>,
    to: Seq<char>,
    max_depth: int,
    hit: bool,
    node: Seq<char>,
)
    requires
        searching(g, order, order.len() as int, from, to, max_depth, hit),
        within(g, from, node, max_depth),
    ensures
        visited(order, node),
{
    let p = choose|p: Seq<Seq<char>>|
        #[trigger] is_path(g, p, from, node) && p.len() - 1 <= max_depth;
    lemma_path_is_covered(
        g,
        order,
        order.len() as int,
        from,
        to,
        max_depth,
        hit,
        p,
        node,
        max_depth,
        p.len() - 1,
    );
    let k = choose|k: int| 0 <= k < order.len() && (#[trigger] order[k]).name@ == p[p.len() - 1];
    assert(order[k].name@ == node);
}

/// What an exhausted search says.
proof fn lemma_exhausted(
    g: Graph,
    order: Seq<Visit>,
    from: Seq<char>,
    to: Seq<char>,
    max_depth: int,
    hit: bool,
)
    requires
        searching(g, order, order.len() as int, from, to, max_depth, hit),
    ensures
        hit ==> !within(g, from, to, max_depth) && goes_on(g, from, max_depth),
        !hit ==> !goes_on(g, from, max_depth) && forall|p: Seq<Seq<char>>|
            !#[trigger] is_path(g, p, from, to),
        order.len() < MAX_VISITED ==> !too_many_nodes(g, from, max_depth),
{
    if order.len() < MAX_VISITED {
        assert forall|node: Seq<char>| #[trigger] within(g, from, node, max_depth) implies visited(
            order,
            node,
        ) by {
            lemma_exhausted_covers(g, order, from, to, max_depth, hit, node);
        }
        lemma_few(g, order, from, max_depth);
    }
    if !hit && goes_on(g, from, max_depth) {
        let (a, b) = choose|a: Seq<char>, b: Seq<char>|
            within(g, from, a, max_depth) && #[trigger] g(a).contains(b) && !within(
                g,
                from,
                b,
                max_depth,
            );
        lemma_exhausted_covers(g, order, from, to, max_depth, hit, a);
        let k = choose|k: int| 0 <= k < order.len() && (#[trigger] order[k]).name@ == a;
        assert(settled(g, order, k, max_depth, hit));
        let nexts = g(a);
        let m = choose|m: int| 0 <= m < nexts.len() && nexts[m] == b;
        assert(covered(order, g(order[k].name@)[m], order[k].depth + 1));
        let c = choose|c: int| 0 <= c < order.len() && (#[trigger] order[c]).name@ == b;
        lemma_trail(g, order, order.len() as int, from, to, max_depth, c);
        assert(is_path(g, trail(order, c), from, b));
    }
    if hit {
        if within(g, from, to, max_depth) {
            lemma_exhausted_covers(g, order, from, to, max_depth, hit, to);
            let k = choose|k: int| 0 <= k < order.len() && (#[trigger] order[k]).name@ == to;
            assert(order[k].name@ != to);
        }
        let (i, j) = choose|i: int, j: int| #[trigger] beyond(g, order, i, j, max_depth);
        let a = order[i].name@;
        let b = g(a)[j];
        lemma_trail(g, order, order.len() as int, from, to, max_depth, i);
        assert(is_path(g, trail(order, i), from, a));
        assert(within(g, from, a, max_depth));
        if within(g, from, b, max_depth) {
            lemma_exhausted_covers(g, order, from, to, max_depth, hit, b);
        }
        assert(g(a).contains(b));
    } else {
        assert forall|p: Seq<Seq<char>>| !#[trigger] is_path(g, p, from, to) by {
            if is_path(g, p, from, to) {
                let bound = p.len() as int;
                lemma_path_is_covered(
                    g,
                    order,
                    order.len() as int,
                    from,
                    to,
                    max_depth,
                    hit,
                    p,
                    to,
                    bound,
                    p.len() - 1,
                );
                let k = choose|k: int|
                    0 <= k < order.len() && (#[trigger] order[k]).name@ == p[p.len() - 1];
                assert(order[k].name@ != to);
            }
        }
    }
}

/// The visited nodes are distinct and at most one edge farther than the node at
/// hand.
proof fn lemma_too_many(
    g: Graph,
    order: Seq<Visit>,
    head: int,
    from: Seq<char>,
    to: Seq<char>,
    max_depth: int,
)
    requires
        tree(g, order, head, from, to, max_depth),
        head < order.len(),
        order.len() >= MAX_VISITED,
    ensures
        too_many_nodes(g, from, order[head].depth + 1),
{
    let depth = order[head].depth + 1;
    let nodes = Seq::new(order.len(), |i: int| order[i].name@);
    assert forall|i: int| 0 <= i < nodes.len() implies within(
        g,
        from,
        #[trigger] nodes[i],
        depth,
    ) by {
        lemma_trail(g, order, head, from, to, max_depth, i);
        assert(order[i].depth <= depth);
        assert(is_path(g, trail(order, i), from, nodes[i]));
    }
    assert forall|i: int, j: int| 0 <= i < nodes.len() && 0 <= j < nodes.len() && i != j implies
        nodes[i] != nodes[j] by {
        if i < j {
            assert(order[i].name@ != order[j].name@);
        } else {
            assert(order[j].name@ != order[i].name@);
        }
    }
    assert(nodes.no_duplicates());
}

/// Where every node within a depth was visited, they are as few as the visited
/// ones.
proof fn lemma_few(g: Graph, order: Seq<Visit>, from: Seq<char>, depth: int)
    requires
        order.len() < MAX_VISITED,
        forall|node: Seq<char>| #[trigger] within(g, from, node, depth) ==> visited(order, node),
    ensures
        !too_many_nodes(g, from, depth),
{
    if too_many_nodes(g, from, depth) {
        let nodes = choose|nodes: Seq<Seq<char>>|
            #![trigger nodes.no_duplicates()]
            {
                &&& nodes.len() >= MAX_VISITED
                &&& nodes.no_duplicates()
                &&& forall|i: int|
                    0 <= i < nodes.len() ==> within(g, from, #[trigger] nodes[i], depth)
            };
        let names = Seq::new(order.len(), |i: int| order[i].name@);
        assert forall|node: Seq<char>| #[trigger] nodes.to_set().contains(node) implies names.to_set().contains(
            node,
        ) by {
            assert(nodes.contains(node));
            let i = choose|i: int| 0 <= i < nodes.len() && nodes[i] == node;
            assert(within(g, from, nodes[i], depth));
            let k = choose|k: int| 0 <= k < order.len() && (#[trigger] order[k]).name@ == node;
            assert(names[k] == node);
        }
        nodes.unique_seq_to_set();
        names.lemma_cardinality_of_set();
        vstd::seq_lib::seq_to_set_is_finite(names);
        vstd::set_lib::lemma_len_subset(nodes.to_set(), names.to_set());
    }
}

/// All that is no farther than the node at hand was visited, no farther than it
/// is; what is closer was settled.
proof fn lemma_level(
    g: Graph,
    order: Seq<Visit>,
    head: int,
    from: Seq<char>,
    to: Seq<char>,
    max_depth: int,
    hit: bool,
    node: Seq<char>,
    depth: int,
)
    requires
        tree(g, order, head, from, to, max_depth),
        forall|i: int| 0 <= i < head ==> #[trigger] settled(g, order, i, max_depth, hit),
        head < order.len(),
        depth <= order[head].depth,
        within(g, from, node, depth),
    ensures
        covered(order, node, depth),
{
    let p = choose|p: Seq<Seq<char>>|
        #[trigger] is_path(g, p, from, node) && p.len() - 1 <= depth;
    let bound = order[head].depth as int;
    lemma_path_is_covered(
        g,
        order,
        head,
        from,
        to,
        max_depth,
        hit,
        p,
        node,
        bound,
        p.len() - 1,
    );
    let k = choose|k: int|
        0 <= k < order.len() && (#[trigger] order[k]).name@ == p[p.len() - 1] && order[k].depth
            <= p.len() - 1;
    assert(order[k].name@ == node && order[k].depth <= depth);
}

/// The target is farther than the node at hand, and few nodes are no farther.
proof fn lemma_few_at_hand(
    g: Graph,
    order: Seq<Visit>,
    head: int,
    from: Seq<char>,
    to: Seq<char>,
    max_depth: int,
    hit: bool,
)
    requires
        tree(g, order, head, from, to, max_depth),
        forall|i: int| 0 <= i < head ==> #[trigger] settled(g, order, i, max_depth, hit),
        head < order.len(),
        order.len() < MAX_VISITED,
    ensures
        !within(g, from, to, order[head].depth as int),
        !too_many_nodes(g, from, order[head].depth as int),
{
    let depth = order[head].depth as int;
    if within(g, from, to, depth) {
        lemma_level(g, order, head, from, to, max_depth, hit, to, depth);
        let k = choose|k: int| 0 <= k < order.len() && (#[trigger] order[k]).name@ == to;
        assert(order[k].name@ != to);
    }
    assert forall|node: Seq<char>| #[trigger] within(g, from, node, depth) implies visited(
        order,
        node,
    ) by {
        lemma_level(g, order, head, from, to, max_depth, hit, node, depth);
        let k = choose|k: int|
            0 <= k < order.len() && (#[trigger] order[k]).name@ == node && order[k].depth <= depth;
        assert(order[k].name@ == node);
    }
    lemma_few(g, order, from, depth);
}

/// The node at hand is the next that the search needs.
proof fn lemma_is_next(
    g: Graph,
    known: Seq<Expansion>,
    order: Seq<Visit>,
    head: int,
    from: Seq<char>,
    to: Seq<char>,
    max_depth: int,
    hit: bool,
)
    requires
        tree(g, order, head, from, to, max_depth),
        forall|i: int| 0 <= i < head ==> #[trigger] settled(g, order, i, max_depth, hit),
        forall|i: int| 0 <= i < head ==> is_known(known, (#[trigger] order[i]).name@),
        head < order.len(),
        order.len() < MAX_VISITED,
    ensures
        is_next(g, known, from, to, order[head].name@, order[head].depth as int),
{
    let node = order[head].name@;
    let depth = order[head].depth as int;
    lemma_trail(g, order, head, from, to, max_depth, head);
    assert(is_path(g, trail(order, head), from, node));
    lemma_few_at_hand(g, order, head, from, to, max_depth, hit);
    if within(g, from, node, depth - 1) {
        lemma_level(g, order, head, from, to, max_depth, hit, node, depth - 1);
        let k = choose|k: int|
            0 <= k < order.len() && (#[trigger] order[k]).name@ == node && order[k].depth <= depth
                - 1;
        assert(k != head);
        assert(order[k].name@ != order[head].name@);
    }
    assert forall|closer: Seq<char>| #[trigger] within(
        g,
        from,
        closer,
        depth - 1,
    ) implies is_known(known, closer) by {
        lemma_level(g, order, head, from, to, max_depth, hit, closer, depth - 1);
        let k = choose|k: int|
            0 <= k < order.len() && (#[trigger] order[k]).name@ == closer && order[k].depth <= depth
                - 1;
        assert(k < head);
        assert(is_known(known, order[k].name@));
    }
}

proof fn lemma_expansion_index(known: Seq<Expansion>, node: Seq<char>, k: int)
    requires
        0 <= k <= known.len(),
        forall|i: int| 0 <= i < k ==> (#[trigger] known[i]).node@ != node,
        k == known.len() || known[k].node@ == node,
    ensures
        expansion_index(known, node) == k,
    decreases known.len(),
{
    if k > 0 {
        let rest = known.subrange(1, known.len() as int);
        assert forall|i: int| 0 <= i < k - 1 implies (#[trigger] rest[i]).node@ != node by {
            assert(known[i + 1].node@ != node);
        }
        lemma_expansion_index(rest, node, k - 1);
    }
}

/// The offset of the expansion of `node`.
fn find_expansion(known: &Vec<Expansion>, node: &str) -> (r: Option<usize>)
    ensures
        (match r {
            Some(i) => is_known(known@, node@) && i == expansion_index(known@, node@)
                && known@[i as int].node@ == node@,
            None => !is_known(known@, node@),
        }),
{
    let mut i: usize = 0;
    while i < known.len()
        invariant
            i <= known.len(),
            forall|k: int| 0 <= k < i ==> (#[trigger] known@[k]).node@ != node@,
        decreases known.len() - i,
    {
        if same_text(&known[i].node, node) {
            proof {
                lemma_expansion_index(known@, node@, i as int);
            }
            return Some(i);
        }
        i = i + 1;
    }
    proof {
        lemma_expansion_index(known@, node@, known@.len() as int);
    }
    None
}

/// Whether `name` was visited.
fn is_visited(order: &Vec<Visit>, name: &str) -> (r: bool)
    ensures
        r == visited(order@, name@),
{
    let mut i: usize = 0;
    while i < order.len()
        invariant
            i <= order.len(),
            forall|k: int| 0 <= k < i ==> (#[trigger] order@[k]).name@ != name@,
        decreases order.len() - i,
    {
        if same_text(&order[i].name, name) {
            return true;
        }
        i = i + 1;
    }
    false
}

/// The way on which `order[i]` was reached.
fn collect_trail(order: &Vec<Visit>, i: usize) -> (path: Vec<String>)
    requires
        i < order.len(),
        forall|k: int| 0 < k < order.len() ==> (#[trigger] order@[k]).parent < k,
    ensures
        texts(path@) == trail(order@, i as int),
    decreases i,
{
    if i == 0 {
        let path = vec![order[0].name.clone()];
        assert(texts(path@) =~= trail(order@, 0));
        path
    } else {
        let mut path = collect_trail(order, order[i].parent);
        let ghost before = path@;
        path.push(order[i].name.clone());
        assert(texts(path@) =~= texts(before).push(order@[i as int].name@));
        path
    }
}

/// Nothing is closer than the node where a path begins.
proof fn lemma_nothing_is_closer(g: Graph, from: Seq<char>)
    ensures
        !too_many_nodes(g, from, -1),
{
    if too_many_nodes(g, from, -1) {
        let nodes = choose|nodes: Seq<Seq<char>>|
            #![trigger nodes.no_duplicates()]
            {
                &&& nodes.len() >= MAX_VISITED
                &&& nodes.no_duplicates()
                &&& forall|i: int| 0 <= i < nodes.len() ==> within(g, from, #[trigger] nodes[i], -1)
            };
        assert(within(g, from, nodes[0], -1));
    }
}

/// Whether a search with the given end points is under way.
spec fn endpoints_known(g: Graph, from: Seq<char>, to: Seq<char>) -> bool {
    g(from).len() > 0 && g(to).len() > 0
}

/// Searches a shortest path of at most `max_depth` edges in the graph of which
/// the edges at some nodes are known. The search asks for the edges at the next
/// node that it needs; what it says once it has ended holds of every graph that
/// has the known edges.
pub fn typed_graph_path(known: &Vec<Expansion>, from: &str, to: &str, max_depth: usize) -> (step:
    PathStep)
    ensures
        (match step {
            PathStep::Done(outcome) => forall|g: Graph| #[trigger]
                agrees(g, known@) ==> outcome_holds(g, from@, to@, max_depth as int, outcome),
            PathStep::Expand(node) => {
                &&& !is_known(known@, node@)
                &&& node@ != from@ ==> is_known(known@, from@) && known_neighbors(
                    known@,
                    from@,
                ).len() > 0
                &&& node@ == from@ || node@ == to@ || forall|g: Graph| #[trigger]
                    agrees(g, known@) ==> exists|depth: int|
                        depth <= max_depth && #[trigger] is_next(
                            g,
                            known@,
                            from@,
                            to@,
                            node@,
                            depth,
                        )
            },
        }),
{
    let from_index = match find_expansion(known, from) {
        Some(i) => i,
        None => {
            return PathStep::Expand(from.to_owned());
        },
    };
    if known[from_index].links.len() == 0 {
        return PathStep::Done(GraphPathOutcome::InvalidEndpoint(from.to_owned()));
    }
    let to_index = match find_expansion(known, to) {
        Some(i) => i,
        None => {
            return PathStep::Expand(to.to_owned());
        },
    };
    if known[to_index].links.len() == 0 {
        return PathStep::Done(GraphPathOutcome::InvalidEndpoint(to.to_owned()));
    }
    if same_text(from, to) {
        let path = vec![from.to_owned()];
        proof {
            assert forall|g: Graph| #[trigger] agrees(g, known@) implies outcome_holds(
                g,
                from@,
                to@,
                max_depth as int,
                GraphPathOutcome::Found(path),
            ) by {
                assert(texts(path@) =~= seq![from@]);
                assert(is_path(g, texts(path@), from@, to@));
                assert(is_known(known@, from@) && is_known(known@, to@));
                lemma_nothing_is_closer(g, from@);
            }
        }
        return PathStep::Done(GraphPathOutcome::Found(path));
    }
    let mut order: Vec<Visit> = vec![Visit { name: from.to_owned(), parent: 0, depth: 0 }];
    let mut head: usize = 0;
    let mut hit = false;
    assert(is_known(known@, from@) && is_known(known@, to@));
    assert forall|g: Graph| #[trigger] agrees(g, known@) implies searching(
        g,
        order@,
        0,
        from@,
        to@,
        max_depth as int,
        false,
    ) && endpoints_known(g, from@, to@) by {}
    while head < order.len()
        invariant
            head <= order.len(),
            order.len() < MAX_VISITED,
            is_known(known@, from@) && known_neighbors(known@, from@).len() > 0,
            forall|i: int| 0 <= i < head ==> is_known(known@, (#[trigger] order@[i]).name@),
            forall|g: Graph| #[trigger]
                agrees(g, known@) ==> searching(
                    g,
                    order@,
                    head as int,
                    from@,
                    to@,
                    max_depth as int,
                    hit,
                ) && endpoints_known(g, from@, to@),
        decreases MAX_VISITED - head,
    {
        let node = order[head].name.clone();
        let depth = order[head].depth;
        let index = match find_expansion(known, &node) {
            Some(i) => i,
            None => {
                proof {
                    assert forall|g: Graph| #[trigger] agrees(g, known@) implies exists|depth: int|
                        depth <= max_depth && #[trigger] is_next(
                            g,
                            known@,
                            from@,
                            to@,
                            node@,
                            depth,
                        ) by {
                        lemma_is_next(
                            g,
                            known@,
                            order@,
                            head as int,
                            from@,
                            to@,
                            max_depth as int,
                            hit,
                        );
                    }
                }
                return PathStep::Expand(node);
            },
        };
        let mut j: usize = 0;
        while j < known[index].links.len()
            invariant
                index < known.len(),
                is_known(known@, node@),
                index == expansion_index(known@, node@),
                known@[index as int].node@ == node@,
                head < order.len() < MAX_VISITED,
                order@[head as int].name@ == node@,
                order@[head as int].depth == depth,
                j <= known@[index as int].links@.len(),
                forall|i: int| 0 <= i < head ==> is_known(known@, (#[trigger] order@[i]).name@),
                forall|g: Graph| #[trigger]
                    agrees(g, known@) ==> endpoints_known(g, from@, to@) && expanding(
                        g,
                        order@,
                        head as int,
                        from@,
                        to@,
                        max_depth as int,
                        hit,
                        j as int,
                    ),
            decreases known@[index as int].links@.len() - j,
        {
            let link = &known[index].links[j];
            let next = if same_text(&link.source, &node) {
                link.target.clone()
            } else {
                link.source.clone()
            };
            assert(next@ == neighbors(known@[index as int])[j as int]);
            if is_visited(&order, &next) {
                proof {
                    assert forall|g: Graph| #[trigger] agrees(g, known@) implies expanding(
                        g,
                        order@,
                        head as int,
                        from@,
                        to@,
                        max_depth as int,
                        hit,
                        j as int + 1,
                    ) by {
                        lemma_skip(
                            g,
                            order@,
                            head as int,
                            from@,
                            to@,
                            max_depth as int,
                            hit,
                            j as int,
                        );
                    }
                }
            } else if depth >= max_depth {
                proof {
                    assert forall|g: Graph| #[trigger] agrees(g, known@) implies expanding(
                        g,
                        order@,
                        head as int,
                        from@,
                        to@,
                        max_depth as int,
                        true,
                        j as int + 1,
                    ) by {
                        lemma_hit(
                            g,
                            order@,
                            head as int,
                            from@,
                            to@,
                            max_depth as int,
                            hit,
                            j as int,
                        );
                    }
                }
                hit = true;
            } else {
                let ghost before = order@;
                proof {
                    assert forall|g: Graph| #[trigger] agrees(g, known@) implies !within(
                        g,
                        from@,
                        to@,
                        depth as int,
                    ) && !too_many_nodes(g, from@, depth as int) by {
                        lemma_few_at_hand(
                            g,
                            order@,
                            head as int,
                            from@,
                            to@,
                            max_depth as int,
                            hit,
                        );
                    }
                }
                let visit = Visit { name: next.clone(), parent: head, depth: depth + 1 };
                order.push(visit);
                if same_text(&next, to) {
                    let last = order.len() - 1;
                    proof {
                        assert forall|k: int| 0 < k < order.len() implies (
                        #[trigger] order@[k]).parent < k by {
                            let g: Graph = |n: Seq<char>| known_neighbors(known@, n);
                            assert(agrees(g, known@));
                            if k < before.len() {
                                assert(order@[k] == before[k]);
                            }
                        }
                    }
                    let path = collect_trail(&order, last);
                    proof {
                        assert forall|g: Graph| #[trigger] agrees(g, known@) implies outcome_holds(
                            g,
                            from@,
                            to@,
                            max_depth as int,
                            GraphPathOutcome::Found(path),
                        ) by {
                            lemma_found(
                                g,
                                before,
                                order@,
                                head as int,
                                from@,
                                to@,
                                max_depth as int,
                                hit,
                                j as int,
                            );
                            assert(path@.len() == texts(path@).len());
                        }
                    }
                    return PathStep::Done(GraphPathOutcome::Found(path));
                }
                proof {
                    assert forall|g: Graph| #[trigger] agrees(g, known@) implies expanding(
                        g,
                        order@,
                        head as int,
                        from@,
                        to@,
                        max_depth as int,
                        hit,
                        j as int + 1,
                    ) by {
                        lemma_push(
                            g,
                            before,
                            order@,
                            head as int,
                            from@,
                            to@,
                            max_depth as int,
                            hit,
                            j as int,
                        );
                    }
                }
                if order.len() >= MAX_VISITED {
                    proof {
                        assert forall|g: Graph| #[trigger] agrees(
                            g,
                            known@,
                        ) implies runs_out(g, from@, to@, depth + 1) by {
                            lemma_too_many(g, order@, head as int, from@, to@, max_depth as int);
                            assert(order@[head as int] == before[head as int]);
                        }
                    }
                    return PathStep::Done(GraphPathOutcome::BudgetExceeded);
                }
            }
            j = j + 1;
        }
        proof {
            assert forall|g: Graph| #[trigger] agrees(g, known@) implies searching(
                g,
                order@,
                head as int + 1,
                from@,
                to@,
                max_depth as int,
                hit,
            ) by {
                assert(g(node@) == known_neighbors(known@, node@));
                lemma_next_node(g, order@, head as int, from@, to@, max_depth as int, hit);
            }
        }
        head = head + 1;
    }
    proof {
        assert forall|g: Graph| #[trigger] agrees(g, known@) implies (hit ==> !within(
            g,
            from@,
            to@,
            max_depth as int,
        ) && goes_on(g, from@, max_depth as int)) && (!hit ==> !goes_on(
            g,
            from@,
            max_depth as int,
        ) && forall|p: Seq<Seq<char>>| !#[trigger] is_path(g, p, from@, to@)) && !too_many_nodes(
            g,
            from@,
            max_depth as int,
        ) by {
            lemma_exhausted(g, order@, from@, to@, max_depth as int, hit);
        }
    }
    if hit {
        PathStep::Done(GraphPathOutcome::BudgetExceeded)
    } else {
        PathStep::Done(GraphPathOutcome::NoPathWithinCompleteSearch)
    }
}

/// The first `j` neighbours of `order[head]` were visited, or lie beyond the
/// depth budget.
spec fn part_settled(
    g: Graph,
    order: Seq<Visit>,
    head: int,
    max_depth: int,
    hit: bool,
    j: int,
) -> bool {
    forall|m: int|
        0 <= m < j && m < g(order[head].name@).len() ==> covered(
            order,
            #[trigger] g(order[head].name@)[m],
            order[head].depth + 1,
        ) || (hit && order[head].depth >= max_depth)
}

/// What holds while `order[head]` is being expanded, after its first `j`
/// neighbours.
spec fn expanding(
    g: Graph,
    order: Seq<Visit>,
    head: int,
    from: Seq<char>,
    to: Seq<char>,
    max_depth: int,
    hit: bool,
    j: int,
) -> bool {
    &&& head < order.len()
    &&& searching(g, order, head, from, to, max_depth, hit)
    &&& part_settled(g, order, head, max_depth, hit, j)
}

/// `more` is `order` with the `j`-th neighbour of `order[head]` visited.
spec fn visits_next(g: Graph, order: Seq<Visit>, more: Seq<Visit>, head: int, j: int) -> bool {
    &&& more.len() == order.len() + 1
    &&& forall|k: int| 0 <= k < order.len() ==> (#[trigger] more[k]) == order[k]
    &&& more[order.len() as int].name@ == g(order[head].name@)[j]
    &&& more[order.len() as int].parent == head
    &&& more[order.len() as int].depth == order[head].depth + 1
}

/// A neighbour that was visited before needs nothing.
proof fn lemma_skip(
    g: Graph,
    order: Seq<Visit>,
    head: int,
    from: Seq<char>,
    to: Seq<char>,
    max_depth: int,
    hit: bool,
    j: int,
)
    requires
        expanding(g, order, head, from, to, max_depth, hit, j),
        0 <= j < g(order[head].name@).len(),
        visited(order, g(order[head].name@)[j]),
    ensures
        expanding(g, order, head, from, to, max_depth, hit, j + 1),
{
    let name = g(order[head].name@)[j];
    let k = choose|k: int| 0 <= k < order.len() && (#[trigger] order[k]).name@ == name;
    assert(order[k].depth <= order[head].depth + 1);
    assert(covered(order, name, order[head].depth + 1));
}

/// A neighbour beyond the depth budget is noted.
proof fn lemma_hit(
    g: Graph,
    order: Seq<Visit>,
    head: int,
    from: Seq<char>,
    to: Seq<char>,
    max_depth: int,
    hit: bool,
    j: int,
)
    requires
        expanding(g, order, head, from, to, max_depth, hit, j),
        0 <= j < g(order[head].name@).len(),
        !visited(order, g(order[head].name@)[j]),
        order[head].depth >= max_depth,
    ensures
        expanding(g, order, head, from, to, max_depth, true, j + 1),
{
    assert(order[head].depth <= max_depth);
    assert(beyond(g, order, head, j, max_depth));
    assert forall|i: int| 0 <= i < head implies #[trigger] settled(
        g,
        order,
        i,
        max_depth,
        true,
    ) by {
        assert(settled(g, order, i, max_depth, hit));
    }
}

/// A neighbour within the depth budget joins the visited nodes.
proof fn lemma_push(
    g: Graph,
    order: Seq<Visit>,
    more: Seq<Visit>,
    head: int,
    from: Seq<char>,
    to: Seq<char>,
    max_depth: int,
    hit: bool,
    j: int,
)
    requires
        expanding(g, order, head, from, to, max_depth, hit, j),
        0 <= j < g(order[head].name@).len(),
        !visited(order, g(order[head].name@)[j]),
        order[head].depth < max_depth,
        g(order[head].name@)[j] != to,
        visits_next(g, order, more, head, j),
    ensures
        expanding(g, more, head, from, to, max_depth, hit, j + 1),
{
    assert(!hit);
    assert(more[0] == order[0]);
    assert(more[head] == order[head]);
    assert(tree(g, more, head, from, to, max_depth)) by {
        assert forall|i: int| 0 < i < more.len() implies (#[trigger] more[i]).parent < i
            && more[i].depth == more[more[i].parent as int].depth + 1 && g(
            more[more[i].parent as int].name@,
        ).contains(more[i].name@) by {
            if i < order.len() {
                assert(more[i] == order[i]);
                assert(more[order[i].parent as int] == order[order[i].parent as int]);
            }
        }
        assert forall|i: int, k: int| 0 <= i <= k < more.len() implies (#[trigger] more[i]).depth
            <= (#[trigger] more[k]).depth by {
            if k < order.len() {
                assert(more[i] == order[i] && more[k] == order[k]);
            } else if i < order.len() {
                assert(more[i] == order[i]);
            }
        }
        assert forall|i: int, k: int| 0 <= i < k < more.len() implies (#[trigger] more[i]).name@
            != (#[trigger] more[k]).name@ by {
            assert(more[i] == order[i]);
            if k < order.len() {
                assert(more[k] == order[k]);
            }
        }
    }
    assert forall|i: int| 0 <= i < head implies #[trigger] settled(
        g,
        more,
        i,
        max_depth,
        hit,
    ) by {
        assert(more[i] == order[i]);
        assert(settled(g, order, i, max_depth, hit));
        assert forall|m: int| 0 <= m < g(more[i].name@).len() implies covered(
            more,
            #[trigger] g(more[i].name@)[m],
            more[i].depth + 1,
        ) || (hit && more[i].depth >= max_depth) by {
            lemma_covered_grows(order, more, g(order[i].name@)[m], order[i].depth + 1);
        }
    }
    assert forall|m: int| 0 <= m < j + 1 && m < g(more[head].name@).len() implies covered(
        more,
        #[trigger] g(more[head].name@)[m],
        more[head].depth + 1,
    ) by {
        if m < j {
            lemma_covered_grows(order, more, g(order[head].name@)[m], order[head].depth + 1);
        } else {
            let last = order.len() as int;
            assert(more[last].name@ == g(more[head].name@)[m]);
        }
    }
}

/// The way to a node does not depend on what was visited after it.
proof fn lemma_trail_same(order: Seq<Visit>, more: Seq<Visit>, i: int)
    requires
        0 <= i < order.len() <= more.len(),
        forall|k: int| 0 <= k < order.len() ==> (#[trigger] more[k]) == order[k],
    ensures
        trail(more, i) == trail(order, i),
    decreases i,
{
    assert(more[0] == order[0]);
    assert(more[i] == order[i]);
    if i > 0 && order[i].parent < i {
        lemma_trail_same(order, more, order[i].parent as int);
    }
}

/// The way to the target over the node at hand is a shortest path.
proof fn lemma_found(
    g: Graph,
    order: Seq<Visit>,
    more: Seq<Visit>,
    head: int,
    from: Seq<char>,
    to: Seq<char>,
    max_depth: int,
    hit: bool,
    j: int,
)
    requires
        expanding(g, order, head, from, to, max_depth, hit, j),
        0 <= j < g(order[head].name@).len(),
        order[head].depth < max_depth,
        g(order[head].name@)[j] == to,
        visits_next(g, order, more, head, j),
    ensures
        is_shortest_path(g, trail(more, order.len() as int), from, to),
        trail(more, order.len() as int).len() - 1 <= max_depth,
        trail(more, order.len() as int).len() == order[head].depth + 2,
{
    let last = order.len() as int;
    lemma_trail(g, order, head, from, to, max_depth, head);
    lemma_trail_same(order, more, head);
    let before = trail(order, head);
    let path = trail(more, last);
    assert(path == before.push(to));
    assert forall|k: int| 0 <= k < path.len() - 1 implies g(#[trigger] path[k]).contains(
        path[k + 1],
    ) by {
        if k < before.len() - 1 {
            assert(g(before[k]).contains(before[k + 1]));
        } else {
            assert(path[k] == before.last());
            assert(g(order[head].name@)[j] == path[k + 1]);
        }
    }
    assert forall|q: Seq<Seq<char>>| #[trigger] is_path(g, q, from, to) implies path.len()
        <= q.len() by {
        lemma_found_is_shortest(g, order, head, from, to, max_depth, hit, q);
    }
}

/// Once every neighbour was looked at, the next node is at hand.
proof fn lemma_next_node(
    g: Graph,
    order: Seq<Visit>,
    head: int,
    from: Seq<char>,
    to: Seq<char>,
    max_depth: int,
    hit: bool,
)
    requires
        expanding(g, order, head, from, to, max_depth, hit, g(order[head].name@).len() as int),
    ensures
        searching(g, order, head + 1, from, to, max_depth, hit),
{
    assert(settled(g, order, head, max_depth, hit));
    if head + 1 < order.len() {
        assert(order[head].depth <= order[head + 1].depth);
    }
}

}
