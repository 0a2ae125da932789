//! The objects of a loaded scene and how they are found by name.
use crate::text::ends_with;
use crate::EntityId;
use vstd::prelude::*;
use vstd::string::*;

verus! {

/// An object below the root of a loaded scene, in the order of a walk in which objects stand behind
/// their parents.
#[derive(Debug)]
pub struct SceneNode {
    pub entity: EntityId,
    pub name: Option<String>,
    /// The place of the parent, unless that is the root.
    pub parent: Option<usize>,
    /// The object is drawn.
    pub has_mesh: bool,
    /// Its mesh has triangles.
    pub has_triangles: bool,
    /// Its mesh has the four points of a marker.
    pub has_markers: bool,
    /// Its mesh has points.
    pub has_points: bool,
    /// Its place in the world is known.
    pub placed: bool,
}

/// Whether objects stand behind their parents.
pub open spec fn parents_precede(nodes: Seq<SceneNode>) -> bool {
    forall|j: int|
        0 <= j < nodes.len() ==> match (#[trigger] nodes[j]).parent {
            Some(p) => p < j,
            None => true,
        }
}

/// Whether the object at place `j` is somewhere below the one at place `i`.
pub open spec fn under(nodes: Seq<SceneNode>, j: int, i: int) -> bool
    decreases j,
{
    if 0 <= j < nodes.len() {
        match nodes[j].parent {
            Some(p) => p < j && (p == i || under(nodes, p as int, i)),
            None => false,
        }
    } else {
        false
    }
}

pub fn is_under(nodes: &Vec<SceneNode>, j: usize, i: usize) -> (r: bool)
    requires
        parents_precede(nodes@),
        j < nodes@.len(),
    ensures
        r == under(nodes@, j as int, i as int),
{
    let mut at: usize = j;
    loop
        invariant
            parents_precede(nodes@),
            at < nodes@.len(),
            under(nodes@, j as int, i as int) == under(nodes@, at as int, i as int),
        decreases at,
    {
        match nodes[at].parent {
            None => return false,
            Some(parent) => {
                proof {
                    assert(nodes@[at as int].parent == Some(parent));
                }
                if parent == i {
                    return true;
                }
                at = parent;
            },
        }
    }
}

/// Whether an object's name has an ending.
pub open spec fn named(node: SceneNode, suffix: Seq<char>) -> bool {
    node.name matches Some(name) && crate::text::stands_at(
        name@,
        suffix,
        name@.len() - suffix.len(),
    )
}

pub fn is_named(node: &SceneNode, suffix: &str) -> (r: bool)
    ensures
        r == named(*node, suffix@),
{
    match &node.name {
        Some(name) => ends_with(name.as_str(), suffix),
        None => false,
    }
}

/// The first object whose name has an ending, among the first `n`.
pub open spec fn first_named(nodes: Seq<SceneNode>, suffix: Seq<char>, n: int) -> Option<usize>
    decreases n,
{
    if n <= 0 {
        None
    } else {
        match first_named(nodes, suffix, n - 1) {
            Some(i) => Some(i),
            None => if named(nodes[n - 1], suffix) {
                Some((n - 1) as usize)
            } else {
                None
            },
        }
    }
}

/// The first object whose name has an ending.
pub open spec fn find_spec(nodes: Seq<SceneNode>, suffix: Seq<char>) -> Option<usize> {
    first_named(nodes, suffix, nodes.len() as int)
}

proof fn lemma_first_stays(nodes: Seq<SceneNode>, suffix: Seq<char>, i: int, n: int)
    requires
        i <= n,
        first_named(nodes, suffix, i) is Some,
    ensures
        first_named(nodes, suffix, n) == first_named(nodes, suffix, i),
    decreases n - i,
{
    if i < n {
        lemma_first_stays(nodes, suffix, i, n - 1);
    }
}

/// The first object whose name has an ending.
pub fn find(nodes: &Vec<SceneNode>, suffix: &str) -> (r: Option<usize>)
    ensures
        r == find_spec(nodes@, suffix@),
        r matches Some(i) ==> i < nodes@.len(),
{
    let mut i: usize = 0;
    while i < nodes.len()
        invariant
            i <= nodes@.len(),
            first_named(nodes@, suffix@, i as int) is None,
        decreases nodes@.len() - i,
    {
        if is_named(&nodes[i], suffix) {
            proof {
                lemma_first_stays(nodes@, suffix@, i + 1, nodes@.len() as int);
            }
            return Some(i);
        }
        i = i + 1;
    }
    None
}

/// Whether an object stands right below one whose name has an ending. The engine's loader puts the
/// mesh of a named object there.
pub open spec fn below_named(nodes: Seq<SceneNode>, j: int, suffix: Seq<char>) -> bool {
    nodes[j].parent matches Some(p) && named(nodes[p as int], suffix)
}

/// The first object right below one whose name has an ending, among the first `n`.
pub open spec fn first_below_named(nodes: Seq<SceneNode>, suffix: Seq<char>, n: int) -> Option<usize>
    decreases n,
{
    if n <= 0 {
        None
    } else {
        match first_below_named(nodes, suffix, n - 1) {
            Some(i) => Some(i),
            None => if below_named(nodes, n - 1, suffix) {
                Some((n - 1) as usize)
            } else {
                None
            },
        }
    }
}

/// The first object right below one whose name has an ending.
pub open spec fn find_below_spec(nodes: Seq<SceneNode>, suffix: Seq<char>) -> Option<usize> {
    first_below_named(nodes, suffix, nodes.len() as int)
}

proof fn lemma_below_stays(nodes: Seq<SceneNode>, suffix: Seq<char>, i: int, n: int)
    requires
        i <= n,
        first_below_named(nodes, suffix, i) is Some,
    ensures
        first_below_named(nodes, suffix, n) == first_below_named(nodes, suffix, i),
    decreases n - i,
{
    if i < n {
        lemma_below_stays(nodes, suffix, i, n - 1);
    }
}

/// The first object right below one whose name has an ending.
pub fn find_below(nodes: &Vec<SceneNode>, suffix: &str) -> (r: Option<usize>)
    requires
        parents_precede(nodes@),
    ensures
        r == find_below_spec(nodes@, suffix@),
        r matches Some(i) ==> i < nodes@.len(),
{
    let mut i: usize = 0;
    while i < nodes.len()
        invariant
            i <= nodes@.len(),
            parents_precede(nodes@),
            first_below_named(nodes@, suffix@, i as int) is None,
        decreases nodes@.len() - i,
    {
        if let Some(parent) = nodes[i].parent {
            if is_named(&nodes[parent], suffix) {
                proof {
                    lemma_below_stays(nodes@, suffix@, i + 1, nodes@.len() as int);
                }
                return Some(i);
            }
        }
        i = i + 1;
    }
    None
}

/// Whether an object has a name.
pub open spec fn called(node: SceneNode, name: Seq<char>) -> bool {
    node.name matches Some(own) && own@ == name
}

pub fn is_called(node: &SceneNode, name: &str) -> (r: bool)
    ensures
        r == called(*node, name@),
{
    match &node.name {
        Some(own) => *own == name.to_owned(),
        None => false,
    }
}

/// The first object with a name, among the first `n`.
pub open spec fn first_called(nodes: Seq<SceneNode>, name: Seq<char>, n: int) -> Option<usize>
    decreases n,
{
    if n <= 0 {
        None
    } else {
        match first_called(nodes, name, n - 1) {
            Some(i) => Some(i),
            None => if called(nodes[n - 1], name) {
                Some((n - 1) as usize)
            } else {
                None
            },
        }
    }
}

proof fn lemma_called_stays(nodes: Seq<SceneNode>, name: Seq<char>, i: int, n: int)
    requires
        i <= n,
        first_called(nodes, name, i) is Some,
    ensures
        first_called(nodes, name, n) == first_called(nodes, name, i),
    decreases n - i,
{
    if i < n {
        lemma_called_stays(nodes, name, i, n - 1);
    }
}

/// The first object with a name.
pub fn find_called(nodes: &Vec<SceneNode>, name: &str) -> (r: Option<usize>)
    ensures
        r == first_called(nodes@, name@, nodes@.len() as int),
        r matches Some(i) ==> i < nodes@.len(),
{
    let mut i: usize = 0;
    while i < nodes.len()
        invariant
            i <= nodes@.len(),
            first_called(nodes@, name@, i as int) is None,
        decreases nodes@.len() - i,
    {
        if is_called(&nodes[i], name) {
            proof {
                lemma_called_stays(nodes@, name@, i + 1, nodes@.len() as int);
            }
            return Some(i);
        }
        i = i + 1;
    }
    None
}

/// The first object with a name below the one at place `above`, among the first `n`.
pub open spec fn first_called_under(
    nodes: Seq<SceneNode>,
    above: int,
    name: Seq<char>,
    n: int,
) -> Option<usize>
    decreases n,
{
    if n <= 0 {
        None
    } else {
        match first_called_under(nodes, above, name, n - 1) {
            Some(i) => Some(i),
            None => if called(nodes[n - 1], name) && under(nodes, n - 1, above) {
                Some((n - 1) as usize)
            } else {
                None
            },
        }
    }
}

proof fn lemma_called_under_stays(
    nodes: Seq<SceneNode>,
    above: int,
    name: Seq<char>,
    i: int,
    n: int,
)
    requires
        i <= n,
        first_called_under(nodes, above, name, i) is Some,
    ensures
        first_called_under(nodes, above, name, n) == first_called_under(nodes, above, name, i),
    decreases n - i,
{
    if i < n {
        lemma_called_under_stays(nodes, above, name, i, n - 1);
    }
}

/// The first object with a name below another.
pub fn find_called_under(nodes: &Vec<SceneNode>, above: usize, name: &str) -> (r: Option<usize>)
    requires
        parents_precede(nodes@),
    ensures
        r == first_called_under(nodes@, above as int, name@, nodes@.len() as int),
        r matches Some(i) ==> i < nodes@.len(),
{
    let mut i: usize = 0;
    while i < nodes.len()
        invariant
            i <= nodes@.len(),
            parents_precede(nodes@),
            first_called_under(nodes@, above as int, name@, i as int) is None,
        decreases nodes@.len() - i,
    {
        if is_called(&nodes[i], name) && is_under(nodes, i, above) {
            proof {
                lemma_called_under_stays(
                    nodes@,
                    above as int,
                    name@,
                    i + 1,
                    nodes@.len() as int,
                );
            }
            return Some(i);
        }
        i = i + 1;
    }
    None
}

/// Whether every child stands behind its parent, so that walking down comes to an end.
pub open spec fn is_forest(children: Seq<Vec<usize>>) -> bool {
    forall|i: int, k: int|
        0 <= i < children.len() && 0 <= k < children[i]@.len() ==> i < (
        #[trigger] children[i]@[k]) < children.len()
}

/// What is below the first `n` children of an object, each child right before what is below it.
pub open spec fn below(children: Seq<Vec<usize>>, at: int, n: int) -> Seq<usize>
    decreases children.len() - at, n,
{
    if n <= 0 || at < 0 || at >= children.len() {
        Seq::empty()
    } else {
        let child = children[at]@[n - 1];
        let before = below(children, at, n - 1).push(child);
        if at < child < children.len() {
            before + below(children, child as int, children[child as int]@.len() as int)
        } else {
            before
        }
    }
}

/// Everything below an object.
pub open spec fn descendants(children: Seq<Vec<usize>>, at: int) -> Seq<usize> {
    below(children, at, children[at]@.len() as int)
}

/// Collects everything below an object, each object right before what is below it.
pub fn collect_descendants(children: &Vec<Vec<usize>>, at: usize, out: &mut Vec<usize>)
    requires
        is_forest(children@),
        at < children@.len(),
    ensures
        final(out)@ == old(out)@ + descendants(children@, at as int),
    decreases children@.len() - at,
{
    let ghost before = out@;
    let mut i: usize = 0;
    while i < children[at].len()
        invariant
            is_forest(children@),
            at < children@.len(),
            i <= children@[at as int]@.len(),
            out@ =~= before + below(children@, at as int, i as int),
        decreases children@[at as int]@.len() - i,
    {
        let child: usize = children[at][i];
        assert(children@[at as int]@[i as int] == child);
        out.push(child);
        collect_descendants(children, child, out);
        i = i + 1;
    }
}

/// What is below an object contains, with every object, its children too; and the object's own
/// children, of course.
pub proof fn law_descendants_are_complete(
    children: Seq<Vec<usize>>,
    root: int,
    at: int,
    k: int,
)
    requires
        is_forest(children),
        0 <= root < children.len(),
        0 <= at < children.len(),
        at == root || descendants(children, root).contains(at as usize),
        0 <= k < children[at]@.len(),
    ensures
        descendants(children, root).contains(children[at]@[k]),
{
    if at == root {
        lemma_below_has_children(children, root, children[root]@.len() as int, k);
    } else {
        lemma_below_is_complete(children, root, children[root]@.len() as int, at, k);
    }
}

proof fn lemma_below_has_children(children: Seq<Vec<usize>>, at: int, n: int, k: int)
    requires
        is_forest(children),
        0 <= at < children.len(),
        0 <= k < n <= children[at]@.len(),
    ensures
        below(children, at, n).contains(children[at]@[k]),
    decreases n,
{
    let child = children[at]@[n - 1];
    let before = below(children, at, n - 1);
    let all = below(children, at, n);
    if k == n - 1 {
        assert(all[before.len() as int] == child);
    } else {
        lemma_below_has_children(children, at, n - 1, k);
        let j = choose|j: int| 0 <= j < before.len() && before[j] == children[at]@[k];
        assert(all[j] == children[at]@[k]);
    }
}

proof fn lemma_below_is_complete(children: Seq<Vec<usize>>, at: int, n: int, node: int, k: int)
    requires
        is_forest(children),
        0 <= at < children.len(),
        0 <= n <= children[at]@.len(),
        0 <= node < children.len(),
        below(children, at, n).contains(node as usize),
        0 <= k < children[node]@.len(),
    ensures
        below(children, at, n).contains(children[node]@[k]),
    decreases children.len() - at, n,
{
    let wanted = children[node]@[k];
    let all = below(children, at, n);
    let i = choose|i: int| 0 <= i < all.len() && all[i] == node as usize;
    if n > 0 {
        let child = children[at]@[n - 1];
        let before = below(children, at, n - 1);
        let tail = below(children, child as int, children[child as int]@.len() as int);
        assert(at < child < children.len());
        assert(all == before.push(child) + tail);
        if i < before.len() {
            assert(before[i] == node as usize);
            lemma_below_is_complete(children, at, n - 1, node, k);
            let j = choose|j: int| 0 <= j < before.len() && before[j] == wanted;
            assert(all[j] == wanted);
        } else {
            if i == before.len() {
                assert(node == child);
                lemma_below_has_children(
                    children,
                    child as int,
                    children[child as int]@.len() as int,
                    k,
                );
            } else {
                assert(tail[i - before.len() - 1] == node as usize);
                lemma_below_is_complete(
                    children,
                    child as int,
                    children[child as int]@.len() as int,
                    node,
                    k,
                );
            }
            let j = choose|j: int| 0 <= j < tail.len() && tail[j] == wanted;
            assert(all[before.len() + 1 + j] == wanted);
        }
    }
}

/// The objects of a list that wait for something, in the list's order.
pub open spec fn waiting_among(list: Seq<usize>, waiting: Seq<bool>) -> Seq<usize>
    decreases list.len(),
{
    if list.len() == 0 {
        Seq::empty()
    } else {
        let before = waiting_among(list.drop_last(), waiting);
        if list.last() < waiting.len() && waiting[list.last() as int] {
            before.push(list.last())
        } else {
            before
        }
    }
}

/// The objects below a world's root that still wait for their colliders.
pub fn colliders_ready(children: &Vec<Vec<usize>>, waiting: &Vec<bool>, root: usize) -> (r: Vec<
    usize,
>)
    requires
        is_forest(children@),
        root < children@.len(),
    ensures
        r@ == waiting_among(descendants(children@, root as int), waiting@),
{
    let mut below_root: Vec<usize> = Vec::new();
    collect_descendants(children, root, &mut below_root);
    let ghost all = descendants(children@, root as int);
    proof {
        assert(below_root@ =~= all);
        assert(all.take(0) =~= Seq::empty());
    }
    let mut queued: Vec<usize> = Vec::new();
    let mut i: usize = 0;
    while i < below_root.len()
        invariant
            i <= below_root@.len(),
            below_root@ == all,
            queued@ == waiting_among(all.take(i as int), waiting@),
        decreases below_root@.len() - i,
    {
        let node: usize = below_root[i];
        proof {
            assert(all.take(i + 1).drop_last() =~= all.take(i as int));
        }
        if node < waiting.len() && waiting[node] {
            queued.push(node);
        }
        i = i + 1;
    }
    proof {
        assert(all.take(i as int) =~= all);
    }
    queued
}

/// A part is found by the ending of its name: it is the first object whose name is something and
/// then that ending.
pub proof fn law_parts_are_found_by_their_endings(nodes: Seq<SceneNode>, suffix: Seq<char>)
    requires
        nodes.len() <= usize::MAX,
    ensures
        match find_spec(nodes, suffix) {
            Some(i) => {
                &&& i < nodes.len()
                &&& nodes[i as int].name is Some
                &&& exists|head: Seq<char>| nodes[i as int].name->0@ == #[trigger] (head + suffix)
                &&& forall|k: int, head: Seq<char>|
                    0 <= k < i && (#[trigger] nodes[k]).name is Some ==> nodes[k].name->0@
                        != #[trigger] (head + suffix)
            },
            None => forall|k: int, head: Seq<char>|
                0 <= k < nodes.len() && (#[trigger] nodes[k]).name is Some ==> nodes[k].name->0@
                    != #[trigger] (head + suffix),
        },
{
    lemma_first_named_is_first(nodes, suffix, nodes.len() as int);
    assert forall|k: int| 0 <= k < nodes.len() && (#[trigger] nodes[k]).name is Some implies (named(
        nodes[k],
        suffix,
    ) <==> exists|head: Seq<char>| nodes[k].name->0@ == #[trigger] (head + suffix)) by {
        crate::text::law_an_ending_is_what_comes_last(nodes[k].name->0@, suffix);
    }
    if let Some(i) = find_spec(nodes, suffix) {
        assert(named(nodes[i as int], suffix));
    }
}

proof fn lemma_first_named_is_first(nodes: Seq<SceneNode>, suffix: Seq<char>, n: int)
    requires
        0 <= n <= nodes.len() <= usize::MAX,
    ensures
        match first_named(nodes, suffix, n) {
            Some(i) => i < n && named(nodes[i as int], suffix) && forall|k: int|
                0 <= k < i ==> !named(#[trigger] nodes[k], suffix),
            None => forall|k: int| 0 <= k < n ==> !named(#[trigger] nodes[k], suffix),
        },
    decreases n,
{
    if n > 0 {
        lemma_first_named_is_first(nodes, suffix, n - 1);
    }
}

/// A part right below a named one is found by the ending of its parent's name: it is the first
/// object whose parent's name is something and then that ending.
pub proof fn law_parts_are_found_right_below_their_names(
    nodes: Seq<SceneNode>,
    suffix: Seq<char>,
)
    requires
        nodes.len() <= usize::MAX,
        parents_precede(nodes),
    ensures
        match find_below_spec(nodes, suffix) {
            Some(i) => {
                &&& i < nodes.len()
                &&& nodes[i as int].parent is Some
                &&& nodes[nodes[i as int].parent->0 as int].name is Some
                &&& exists|head: Seq<char>|
                    nodes[nodes[i as int].parent->0 as int].name->0@ == #[trigger] (head + suffix)
                &&& forall|k: int, head: Seq<char>|
                    0 <= k < i && (#[trigger] nodes[k]).parent is Some
                        && nodes[nodes[k].parent->0 as int].name is Some
                        ==> nodes[nodes[k].parent->0 as int].name->0@ != #[trigger] (head + suffix)
            },
            None => forall|k: int, head: Seq<char>|
                0 <= k < nodes.len() && (#[trigger] nodes[k]).parent is Some
                    && nodes[nodes[k].parent->0 as int].name is Some
                    ==> nodes[nodes[k].parent->0 as int].name->0@ != #[trigger] (head + suffix),
        },
{
    lemma_first_below_named_is_first(nodes, suffix, nodes.len() as int);
    assert forall|k: int|
        0 <= k < nodes.len() && (#[trigger] nodes[k]).parent is Some && nodes[nodes[k].parent->0
            as int].name is Some implies (below_named(nodes, k, suffix) <==> exists|
        head: Seq<char>,
    | nodes[nodes[k].parent->0 as int].name->0@ == #[trigger] (head + suffix)) by {
        crate::text::law_an_ending_is_what_comes_last(
            nodes[nodes[k].parent->0 as int].name->0@,
            suffix,
        );
    }
    if let Some(i) = find_below_spec(nodes, suffix) {
        assert(below_named(nodes, i as int, suffix));
        assert(nodes[i as int].parent is Some);
    }
}

proof fn lemma_first_below_named_is_first(nodes: Seq<SceneNode>, suffix: Seq<char>, n: int)
    requires
        0 <= n <= nodes.len() <= usize::MAX,
    ensures
        match first_below_named(nodes, suffix, n) {
            Some(i) => i < n && below_named(nodes, i as int, suffix) && forall|k: int|
                0 <= k < i ==> !#[trigger] below_named(nodes, k, suffix),
            None => forall|k: int| 0 <= k < n ==> !#[trigger] below_named(nodes, k, suffix),
        },
    decreases n,
{
    if n > 0 {
        lemma_first_below_named_is_first(nodes, suffix, n - 1);
    }
}

/// An object is found by its whole name: the first one that is called so.
pub proof fn law_the_first_of_a_name_is_found(nodes: Seq<SceneNode>, name: Seq<char>)
    requires
        nodes.len() <= usize::MAX,
    ensures
        match first_called(nodes, name, nodes.len() as int) {
            Some(i) => {
                &&& i < nodes.len()
                &&& nodes[i as int].name is Some
                &&& nodes[i as int].name->0@ == name
                &&& forall|k: int|
                    0 <= k < i && (#[trigger] nodes[k]).name is Some ==> nodes[k].name->0@ != name
            },
            None => forall|k: int|
                0 <= k < nodes.len() && (#[trigger] nodes[k]).name is Some ==> nodes[k].name->0@
                    != name,
        },
{
    lemma_first_called_is_first(nodes, name, nodes.len() as int);
}

proof fn lemma_first_called_is_first(nodes: Seq<SceneNode>, name: Seq<char>, n: int)
    requires
        0 <= n <= nodes.len() <= usize::MAX,
    ensures
        match first_called(nodes, name, n) {
            Some(i) => i < n && called(nodes[i as int], name) && forall|k: int|
                0 <= k < i ==> !called(#[trigger] nodes[k], name),
            None => forall|k: int| 0 <= k < n ==> !called(#[trigger] nodes[k], name),
        },
    decreases n,
{
    if n > 0 {
        lemma_first_called_is_first(nodes, name, n - 1);
    }
}

/// Below an object, the first one that is called so is found, at any depth, and none elsewhere.
pub proof fn law_the_first_of_a_name_below_is_found(
    nodes: Seq<SceneNode>,
    above: int,
    name: Seq<char>,
)
    requires
        nodes.len() <= usize::MAX,
    ensures
        match first_called_under(nodes, above, name, nodes.len() as int) {
            Some(i) => {
                &&& i < nodes.len()
                &&& nodes[i as int].name is Some
                &&& nodes[i as int].name->0@ == name
                &&& under(nodes, i as int, above)
                &&& forall|k: int|
                    0 <= k < i && (#[trigger] nodes[k]).name is Some && under(nodes, k, above)
                        ==> nodes[k].name->0@ != name
            },
            None => forall|k: int|
                0 <= k < nodes.len() && (#[trigger] nodes[k]).name is Some && under(nodes, k, above)
                    ==> nodes[k].name->0@ != name,
        },
{
    lemma_first_called_under_is_first(nodes, above, name, nodes.len() as int);
}

proof fn lemma_first_called_under_is_first(
    nodes: Seq<SceneNode>,
    above: int,
    name: Seq<char>,
    n: int,
)
    requires
        0 <= n <= nodes.len() <= usize::MAX,
    ensures
        match first_called_under(nodes, above, name, n) {
            Some(i) => i < n && called(nodes[i as int], name) && under(nodes, i as int, above)
                && forall|k: int|
                0 <= k < i ==> !(called(#[trigger] nodes[k], name) && under(nodes, k, above)),
            None => forall|k: int|
                0 <= k < n ==> !(called(#[trigger] nodes[k], name) && under(nodes, k, above)),
        },
    decreases n,
{
    if n > 0 {
        lemma_first_called_under_is_first(nodes, above, name, n - 1);
    }
}

/// Whether a list of places leads from one object to its parent, and on from there.
pub open spec fn leads_up(nodes: Seq<SceneNode>, way: Seq<int>) -> bool {
    &&& way.len() >= 2
    &&& forall|k: int|
        0 <= k < way.len() - 1 ==> 0 <= #[trigger] way[k] < nodes.len()
            && nodes[way[k]].parent is Some && nodes[way[k]].parent->0 == way[k + 1]
}

/// An object is below another exactly if one gets from it to the other by going from parent to
/// parent, at least once.
pub proof fn law_below_is_up_some_parents(nodes: Seq<SceneNode>, j: int, i: int)
    requires
        parents_precede(nodes),
    ensures
        under(nodes, j, i) <==> exists|way: Seq<int>| #[trigger]
            leads_up(nodes, way) && way[0] == j && way.last() == i,
{
    if under(nodes, j, i) {
        let way = lemma_way_up(nodes, j, i);
        assert(leads_up(nodes, way));
    }
    if exists|way: Seq<int>| #[trigger] leads_up(nodes, way) && way[0] == j && way.last() == i {
        let way = choose|way: Seq<int>| #[trigger]
            leads_up(nodes, way) && way[0] == j && way.last() == i;
        lemma_way_is_below(nodes, way);
    }
}

proof fn lemma_way_up(nodes: Seq<SceneNode>, j: int, i: int) -> (way: Seq<int>)
    requires
        parents_precede(nodes),
        under(nodes, j, i),
    ensures
        leads_up(nodes, way),
        way[0] == j,
        way.last() == i,
    decreases j,
{
    let p = nodes[j].parent->0 as int;
    if p == i {
        seq![j, i]
    } else {
        let rest = lemma_way_up(nodes, p, i);
        let way = seq![j] + rest;
        assert(way.last() == rest.last());
        assert forall|k: int| 0 <= k < way.len() - 1 implies 0 <= #[trigger] way[k] < nodes.len()
            && nodes[way[k]].parent is Some && nodes[way[k]].parent->0 == way[k + 1] by {
            if k > 0 {
                assert(way[k] == rest[k - 1]);
                assert(way[k + 1] == rest[k]);
            }
        }
        way
    }
}

proof fn lemma_way_is_below(nodes: Seq<SceneNode>, way: Seq<int>)
    requires
        parents_precede(nodes),
        leads_up(nodes, way),
    ensures
        under(nodes, way[0], way.last()),
    decreases way.len(),
{
    let first = way[0];
    assert(nodes[first].parent->0 == way[1]);
    assert(nodes[first].parent is Some);
    if way.len() > 2 {
        let rest = way.skip(1);
        assert forall|k: int| 0 <= k < rest.len() - 1 implies 0 <= #[trigger] rest[k] < nodes.len()
            && nodes[rest[k]].parent is Some && nodes[rest[k]].parent->0 == rest[k + 1] by {
            assert(rest[k] == way[k + 1]);
            assert(rest[k + 1] == way[k + 2]);
        }
        lemma_way_is_below(nodes, rest);
        assert(rest.last() == way.last());
    }
}

/// Every descendant is reached from the object by going from child to child: it is a child of the
/// object itself or of another descendant.
pub proof fn law_descendants_are_children_of_descendants(
    children: Seq<Vec<usize>>,
    root: int,
    i: int,
)
    requires
        is_forest(children),
        0 <= root < children.len(),
        0 <= i < descendants(children, root).len(),
    ensures
        exists|at: int, k: int|
            (at == root || descendants(children, root).contains(at as usize)) && 0 <= at
                < children.len() && 0 <= k < children[at]@.len() && #[trigger] children[at]@[k]
                == descendants(children, root)[i],
{
    lemma_below_is_reached(children, root, children[root]@.len() as int, i);
}

proof fn lemma_below_is_reached(children: Seq<Vec<usize>>, root: int, n: int, i: int)
    requires
        is_forest(children),
        0 <= root < children.len(),
        0 <= n <= children[root]@.len(),
        0 <= i < below(children, root, n).len(),
    ensures
        exists|at: int, k: int|
            (at == root || below(children, root, n).contains(at as usize)) && 0 <= at
                < children.len() && 0 <= k < children[at]@.len() && #[trigger] children[at]@[k]
                == below(children, root, n)[i],
    decreases children.len() - root, n,
{
    let child = children[root]@[n - 1];
    let before = below(children, root, n - 1);
    let all = below(children, root, n);
    let inner = below(children, child as int, children[child as int]@.len() as int);
    assert(root < child < children.len());
    assert(all[before.len() as int] == child);
    if i < before.len() {
        lemma_below_is_reached(children, root, n - 1, i);
        let (at, k) = choose|at: int, k: int|
            (at == root || before.contains(at as usize)) && 0 <= at < children.len() && 0 <= k
                < children[at]@.len() && #[trigger] children[at]@[k] == before[i];
        if before.contains(at as usize) {
            let p = choose|p: int| 0 <= p < before.len() && before[p] == at as usize;
            assert(all[p] == at as usize);
        }
        assert(children[at]@[k] == all[i]);
    } else if i == before.len() {
        assert(children[root]@[n - 1] == all[i]);
    } else {
        let j = i - before.len() - 1;
        assert(all[i] == inner[j]);
        lemma_below_is_reached(children, child as int, children[child as int]@.len() as int, j);
        let (at, k) = choose|at: int, k: int|
            (at == child || inner.contains(at as usize)) && 0 <= at < children.len() && 0 <= k
                < children[at]@.len() && #[trigger] children[at]@[k] == inner[j];
        if at == child {
            assert(all.contains(child));
        } else {
            let p = choose|p: int| 0 <= p < inner.len() && inner[p] == at as usize;
            assert(all[before.len() + 1 + p] == at as usize);
        }
        assert(children[at]@[k] == all[i]);
    }
}

/// Those that wait keep their order, and no other is among them.
pub proof fn law_the_waiting_are_picked_in_order(list: Seq<usize>, waiting: Seq<bool>)
    ensures
        waiting_among(list, waiting) == list.filter(
            |i: usize| i < waiting.len() && waiting[i as int],
        ),
    decreases list.len(),
{
    reveal(Seq::filter);
    if list.len() > 0 {
        law_the_waiting_are_picked_in_order(list.drop_last(), waiting);
    } else {
        assert(waiting_among(list, waiting) =~= list.filter(
            |i: usize| i < waiting.len() && waiting[i as int],
        ));
    }
}

} // verus!
