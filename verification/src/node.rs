//! Accessibility trees, and what is read off them.

use vstd::prelude::*;

use crate::text::join;
#[allow(unused_imports)]
use crate::text::{joined, texts};

verus! {

/// A screen coordinate or an extent. The library compares and passes on such values
/// but does not compute with them: it holds the bits of the double and the text
/// that shows it.
#[derive(Debug, PartialEq, Eq)]
pub struct Coordinate {
    pub bits: u64,
    pub text: String,
}

impl Coordinate {
    /// The same coordinate once more.
    pub fn copy(&self) -> (r: Coordinate)
        ensures
            r == *self,
    {
        Coordinate { bits: self.bits, text: self.text.clone() }
    }
}

/// A place on the screen.
#[derive(Debug, PartialEq, Eq)]
pub struct Point {
    pub x: Coordinate,
    pub y: Coordinate,
}

impl Point {
    /// The same place once more.
    pub fn copy(&self) -> (r: Point)
        ensures
            r == *self,
    {
        Point { x: self.x.copy(), y: self.y.copy() }
    }
}

/// An extent on the screen.
#[derive(Debug, PartialEq, Eq)]
pub struct Size {
    pub width: Coordinate,
    pub height: Coordinate,
}

impl Size {
    /// The same extent once more.
    pub fn copy(&self) -> (r: Size)
        ensures
            r == *self,
    {
        Size { width: self.width.copy(), height: self.height.copy() }
    }
}

/// What follows from an element's position and size.
#[derive(Debug, PartialEq, Eq)]
pub struct Frame {
    /// Where a click on the element goes.
    pub center: Point,
    /// Where to scroll in a window that has no scroll area.
    pub scroll_anchor: Point,
    /// The bits of the element's area as a double, which for positive areas are
    /// ordered as the areas are; 0 where the area is not positive.
    pub area: u64,
}

/// What kind of element a node is.
#[derive(Debug, PartialEq, Eq)]
pub enum Role {
    SystemWide,
    Window,
    ScrollArea,
    StaticText,
    TextField,
    TextArea,
    Heading,
    Paragraph,
    Link,
    /// Any other kind, by its name.
    Other(String),
}

/// An element of an accessibility tree, with those below it.
#[derive(Debug, PartialEq, Eq)]
pub struct AccessibilityNode {
    pub role: Role,
    pub name: Option<String>,
    pub value: Option<String>,
    pub description: Option<String>,
    pub id: Option<String>,
    pub position: Option<Point>,
    pub size: Option<Size>,
    /// Known exactly where both the position and the size are; see `is_framed`.
    pub frame: Option<Frame>,
    pub focused: Option<bool>,
    pub enabled: Option<bool>,
    pub pid: Option<u32>,
    pub children: Vec<AccessibilityNode>,
}

/// Whether an element's position and size are both known.
pub open spec fn has_place(node: AccessibilityNode) -> bool {
    node.position is Some && node.size is Some
}

/// What every tree keeps: at each node the frame is known exactly where the position
/// and the size are.
pub open spec fn is_framed(node: AccessibilityNode) -> bool
    decreases node,
{
    &&& node.frame is Some <==> has_place(node)
    &&& forall|i: int|
        0 <= i < node.children@.len() ==> is_framed(#[trigger] node.children@[i])
}

/// Whether every one of the trees is framed.
pub open spec fn are_framed(trees: Seq<AccessibilityNode>) -> bool {
    forall|i: int| 0 <= i < trees.len() ==> is_framed(#[trigger] trees[i])
}

/// Where a click on the element goes, if it is known.
pub open spec fn center_of(node: AccessibilityNode) -> Option<Point> {
    match node.frame {
        Some(frame) => Some(frame.center),
        None => None,
    }
}

impl AccessibilityNode {
    /// Where a click on the element goes, if it is known.
    pub fn center(&self) -> (r: Option<Point>)
        ensures
            r == center_of(*self),
    {
        match &self.frame {
            Some(frame) => Some(frame.center.copy()),
            None => None,
        }
    }
}

/// Whether a node stands for the whole system, above those trees.
pub open spec fn is_system_wide(node: AccessibilityNode, children: Vec<AccessibilityNode>) -> bool {
    &&& node.role is SystemWide
    &&& node.name is Some && node.name->0@ == "System"@
    &&& node.value is None && node.description is None && node.id is None
    &&& node.position is None && node.size is None && node.frame is None
    &&& node.focused is None && node.enabled is None && node.pid is None
    &&& node.children == children
}

/// The node that stands for the whole system, above the applications' trees.
pub fn system_wide(children: Vec<AccessibilityNode>) -> (r: AccessibilityNode)
    ensures
        is_system_wide(r, children),
        are_framed(children@) ==> is_framed(r),
{
    AccessibilityNode {
        role: Role::SystemWide,
        name: Some("System".to_owned()),
        value: None,
        description: None,
        id: None,
        position: None,
        size: None,
        frame: None,
        focused: None,
        enabled: None,
        pid: None,
        children,
    }
}

/// Whether elements of this kind hold text of their own.
pub open spec fn holds_text(role: Role) -> bool {
    role is StaticText || role is TextField || role is TextArea || role is Heading
        || role is Paragraph || role is Link
}

/// What an element itself contributes to the text of its tree: an element that holds
/// text its value or else its name, any other its name where that is not empty.
pub open spec fn own_text(node: AccessibilityNode) -> Seq<String> {
    if holds_text(node.role) {
        if node.value is Some {
            seq![node.value->0]
        } else if node.name is Some {
            seq![node.name->0]
        } else {
            Seq::empty()
        }
    } else if node.name is Some && node.name->0@.len() > 0 {
        seq![node.name->0]
    } else {
        Seq::empty()
    }
}

/// The texts of a tree, from the top down and from first to last.
pub open spec fn tree_text(node: AccessibilityNode) -> Seq<String>
    decreases node, 1int, 0int,
{
    own_text(node) + forest_text(node.children@, node.children@.len() as int)
}

/// The texts of the first `n` trees.
pub open spec fn forest_text(trees: Seq<AccessibilityNode>, n: int) -> Seq<String>
    decreases trees, 0int, n,
{
    if n <= 0 || n > trees.len() {
        Seq::empty()
    } else {
        forest_text(trees, n - 1) + tree_text(trees[n - 1])
    }
}

/// Adds the texts of a tree to `parts`.
pub fn collect_text(node: &AccessibilityNode, parts: &mut Vec<String>)
    ensures
        final(parts)@ == old(parts)@ + tree_text(*node),
    decreases node,
{
    match node.role {
        Role::StaticText
        | Role::TextField
        | Role::TextArea
        | Role::Heading
        | Role::Paragraph
        | Role::Link => {
            if let Some(value) = &node.value {
                parts.push(value.clone());
            } else if let Some(name) = &node.name {
                parts.push(name.clone());
            }
        },
        _ => {
            if let Some(name) = &node.name {
                if !name.as_str().is_empty() {
                    parts.push(name.clone());
                }
            }
        },
    }
    assert(parts@ =~= old(parts)@ + own_text(*node));
    let mut i: usize = 0;
    while i < node.children.len()
        invariant
            i <= node.children.len(),
            parts@ =~= old(parts)@ + own_text(*node) + forest_text(node.children@, i as int),
        decreases node.children.len() - i,
    {
        collect_text(&node.children[i], parts);
        i += 1;
    }
    assert(parts@ =~= old(parts)@ + tree_text(*node));
}

/// The text of a tree, one element's text to a line.
pub fn text(tree: &AccessibilityNode) -> (r: String)
    ensures
        r@ == joined(texts(tree_text(*tree)), "\n"@),
{
    let mut parts: Vec<String> = Vec::new();
    collect_text(tree, &mut parts);
    assert(parts@ =~= tree_text(*tree));
    join(&parts, "\n")
}

/// The frame of an element, where it is a scroll area whose frame is known.
pub open spec fn own_scroll_frame(node: AccessibilityNode) -> Seq<Frame> {
    if node.role is ScrollArea && node.frame is Some {
        seq![node.frame->0]
    } else {
        Seq::empty()
    }
}

/// The frames of the scroll areas of a tree, from the top down and from first to last.
pub open spec fn scroll_frames(node: AccessibilityNode) -> Seq<Frame>
    decreases node, 1int, 0int,
{
    own_scroll_frame(node) + forest_scroll_frames(node.children@, node.children@.len() as int)
}

/// The frames of the scroll areas of the first `n` trees.
pub open spec fn forest_scroll_frames(trees: Seq<AccessibilityNode>, n: int) -> Seq<Frame>
    decreases trees, 0int, n,
{
    if n <= 0 || n > trees.len() {
        Seq::empty()
    } else {
        forest_scroll_frames(trees, n - 1) + scroll_frames(trees[n - 1])
    }
}

/// The centre and the area of the largest frame, starting from `best`: of frames of
/// one area the first counts, and only a frame larger than `best` replaces it.
pub open spec fn largest(frames: Seq<Frame>, best: (Option<Point>, u64)) -> (Option<Point>, u64)
    decreases frames.len(),
{
    if frames.len() == 0 {
        best
    } else {
        let before = largest(frames.drop_last(), best);
        if frames.last().area > before.1 {
            (Some(frames.last().center), frames.last().area)
        } else {
            before
        }
    }
}

proof fn largest_in_two(a: Seq<Frame>, b: Seq<Frame>, best: (Option<Point>, u64))
    ensures
        largest(a + b, best) == largest(b, largest(a, best)),
    decreases b.len(),
{
    if b.len() == 0 {
        assert(a + b =~= a);
    } else {
        largest_in_two(a, b.drop_last(), best);
        assert((a + b).drop_last() =~= a + b.drop_last());
    }
}

/// Looks for the largest scroll area of a tree, and keeps the best one so far.
pub fn find_largest_scroll_area(
    node: &AccessibilityNode,
    best_center: &mut Option<Point>,
    best_area: &mut u64,
)
    ensures
        (*final(best_center), *final(best_area)) == largest(
            scroll_frames(*node),
            (*old(best_center), *old(best_area)),
        ),
    decreases node,
{
    let ghost start = (*best_center, *best_area);
    if let Role::ScrollArea = node.role {
        if let Some(frame) = &node.frame {
            if frame.area > *best_area {
                *best_area = frame.area;
                *best_center = Some(frame.center.copy());
            }
        }
    }
    proof {
        let own = own_scroll_frame(*node);
        reveal_with_fuel(largest, 2);
        assert(own.len() > 0 ==> own.drop_last() =~= Seq::<Frame>::empty());
        assert((*best_center, *best_area) == largest(own, start));
        assert(own + forest_scroll_frames(node.children@, 0) =~= own);
    }
    let mut i: usize = 0;
    while i < node.children.len()
        invariant
            i <= node.children.len(),
            start == (*old(best_center), *old(best_area)),
            (*best_center, *best_area) == largest(
                own_scroll_frame(*node) + forest_scroll_frames(node.children@, i as int),
                start,
            ),
        decreases node.children.len() - i,
    {
        find_largest_scroll_area(&node.children[i], best_center, best_area);
        proof {
            let before = own_scroll_frame(*node) + forest_scroll_frames(node.children@, i as int);
            let next = scroll_frames(node.children@[i as int]);
            largest_in_two(before, next, start);
            assert(before + next =~= own_scroll_frame(*node) + forest_scroll_frames(
                node.children@,
                i + 1,
            ));
        }
        i += 1;
    }
}

/// Where to scroll in an application: in the middle of its largest scroll area or,
/// where it has none, at the anchor of its first window.
pub open spec fn best_scroll_point(tree: AccessibilityNode) -> Option<Point> {
    let best = largest(scroll_frames(tree), (None, 0)).0;
    if best is Some {
        best
    } else if tree.children@.len() > 0 && tree.children@[0].frame is Some {
        Some(tree.children@[0].frame->0.scroll_anchor)
    } else {
        None
    }
}

/// Where to scroll in the application of that tree.
pub fn find_best_scroll_point(tree: &AccessibilityNode) -> (r: Option<Point>)
    ensures
        r == best_scroll_point(*tree),
{
    let mut best_area: u64 = 0;
    let mut best_center: Option<Point> = None;
    find_largest_scroll_area(tree, &mut best_center, &mut best_area);
    if best_center.is_some() {
        return best_center;
    }
    if tree.children.len() > 0 {
        match &tree.children[0].frame {
            Some(frame) => Some(frame.scroll_anchor.copy()),
            None => None,
        }
    } else {
        None
    }
}

/// What is read off the frame is there exactly where the position and the size are:
/// the centre of an element, the frame of a scroll area, and the anchor of a window.
pub proof fn places_are_known_with_position_and_size(node: AccessibilityNode)
    requires
        is_framed(node),
    ensures
        center_of(node) is Some <==> has_place(node),
        own_scroll_frame(node).len() == 1 <==> node.role is ScrollArea && has_place(node),
        largest(scroll_frames(node), (None, 0)).0 is None ==> (best_scroll_point(node) is Some
            <==> node.children@.len() > 0 && has_place(node.children@[0])),
{
    if node.children@.len() > 0 {
        assert(is_framed(node.children@[0]));
    }
}

/// The chosen scroll area is the largest there is, and the first of those.
pub proof fn largest_frame_is_chosen(frames: Seq<Frame>)
    requires
        exists|i: int| 0 <= i < frames.len() && (#[trigger] frames[i]).area > 0,
    ensures
        exists|k: int|
            {
                &&& 0 <= k < frames.len()
                &&& largest(frames, (None, 0)) == (
                    Some((#[trigger] frames[k]).center),
                    frames[k].area,
                )
                &&& forall|j: int| 0 <= j < frames.len() ==> (#[trigger] frames[j]).area
                    <= frames[k].area
                &&& forall|j: int| 0 <= j < k ==> (#[trigger] frames[j]).area < frames[k].area
            },
    decreases frames.len(),
{
    let rest = frames.drop_last();
    let n = frames.len() - 1;
    assert(forall|j: int| 0 <= j < n ==> rest[j] == frames[j]);
    if exists|i: int| 0 <= i < rest.len() && (#[trigger] rest[i]).area > 0 {
        largest_frame_is_chosen(rest);
        let k = choose|k: int|
            {
                &&& 0 <= k < rest.len()
                &&& largest(rest, (None, 0)) == (Some((#[trigger] rest[k]).center), rest[k].area)
                &&& forall|j: int| 0 <= j < rest.len() ==> (#[trigger] rest[j]).area
                    <= rest[k].area
                &&& forall|j: int| 0 <= j < k ==> (#[trigger] rest[j]).area < rest[k].area
            };
        assert forall|j: int| 0 <= j < n implies (#[trigger] frames[j]).area
            <= frames[k].area by {
            assert(rest[j].area <= rest[k].area);
        }
        assert forall|j: int| 0 <= j < k implies (#[trigger] frames[j]).area < frames[k].area by {
            assert(rest[j].area < rest[k].area);
        }
        if frames[n].area > frames[k].area {
            assert(largest(frames, (None, 0)) == (Some(frames[n].center), frames[n].area));
        } else {
            assert(largest(frames, (None, 0)) == (Some(frames[k].center), frames[k].area));
        }
    } else {
        assert forall|j: int| 0 <= j < n implies (#[trigger] frames[j]).area == 0 by {
            assert(rest[j].area == 0);
        }
        no_area_is_chosen(rest);
        assert(frames[n].area > 0);
        assert(largest(frames, (None, 0)) == (Some(frames[n].center), frames[n].area));
    }
}

proof fn no_area_is_chosen(frames: Seq<Frame>)
    requires
        forall|i: int| 0 <= i < frames.len() ==> (#[trigger] frames[i]).area == 0,
    ensures
        largest(frames, (None, 0)) == (None::<Point>, 0u64),
    decreases frames.len(),
{
    if frames.len() > 0 {
        no_area_is_chosen(frames.drop_last());
    }
}

/// The element that is reached from a tree's root by going down to these children.
pub open spec fn element_at(tree: AccessibilityNode, path: Seq<int>) -> Option<AccessibilityNode>
    decreases path.len(),
{
    if path.len() == 0 {
        Some(tree)
    } else if 0 <= path[0] < tree.children@.len() {
        element_at(tree.children@[path[0]], path.skip(1))
    } else {
        None
    }
}

/// What an element without others below it says. A static text, a text field, a text
/// area, a heading, a paragraph and a link say their value, or their name where they have
/// no value, even if it is empty. Any other element says its name, where it has one that
/// is not empty, and never its value.
pub proof fn what_a_single_element_says(node: AccessibilityNode)
    requires
        node.children@.len() == 0,
    ensures
        ({
            let text = node.role is StaticText || node.role is TextField || node.role is TextArea
                || node.role is Heading || node.role is Paragraph || node.role is Link;
            &&& text && node.value is Some ==> tree_text(node) == seq![node.value->0]
            &&& text && node.value is None && node.name is Some ==> tree_text(node)
                == seq![node.name->0]
            &&& text && node.value is None && node.name is None ==> tree_text(node).len() == 0
            &&& !text && node.name is Some && node.name->0@.len() > 0 ==> tree_text(node)
                == seq![node.name->0]
            &&& !text && (node.name is None || node.name->0@.len() == 0) ==> tree_text(
                node,
            ).len() == 0
        }),
{
    assert(forest_text(node.children@, 0) =~= Seq::<String>::empty());
    assert(tree_text(node) =~= own_text(node));
}

proof fn same_trees_say_the_same(a: Seq<AccessibilityNode>, b: Seq<AccessibilityNode>, n: int)
    requires
        0 <= n <= a.len(),
        n <= b.len(),
        forall|i: int| 0 <= i < n ==> a[i] == b[i],
    ensures
        forest_text(a, n) == forest_text(b, n),
        forest_scroll_frames(a, n) == forest_scroll_frames(b, n),
    decreases n,
{
    if n > 0 {
        same_trees_say_the_same(a, b, n - 1);
    }
}

/// What one child more adds to a tree: all that the child says comes behind what was said
/// before, and nothing else changes.
pub proof fn one_child_more_is_read_last(
    smaller: AccessibilityNode,
    larger: AccessibilityNode,
    child: AccessibilityNode,
)
    requires
        larger.children@ == smaller.children@.push(child),
        larger.role == smaller.role,
        larger.name == smaller.name,
        larger.value == smaller.value,
        larger.frame == smaller.frame,
    ensures
        tree_text(larger) == tree_text(smaller) + tree_text(child),
        scroll_frames(larger) == scroll_frames(smaller) + scroll_frames(child),
{
    let a = smaller.children@;
    let b = larger.children@;
    same_trees_say_the_same(a, b, a.len() as int);
    assert(own_text(larger) == own_text(smaller));
    assert(own_scroll_frame(larger) == own_scroll_frame(smaller));
    assert(forest_text(b, b.len() as int) == forest_text(b, b.len() - 1) + tree_text(child));
    assert(forest_scroll_frames(b, b.len() as int) == forest_scroll_frames(b, b.len() - 1)
        + scroll_frames(child));
    assert(tree_text(larger) =~= tree_text(smaller) + tree_text(child));
    assert(scroll_frames(larger) =~= scroll_frames(smaller) + scroll_frames(child));
}

proof fn children_are_read(tree: AccessibilityNode, i: int)
    requires
        0 <= i < tree.children@.len(),
    ensures
        forall|t: String|
            tree_text(tree.children@[i]).contains(t) ==> #[trigger] tree_text(tree).contains(t),
        forall|f: Frame|
            scroll_frames(tree.children@[i]).contains(f) ==> #[trigger] scroll_frames(
                tree,
            ).contains(f),
{
    let trees = tree.children@;
    let own = own_text(tree);
    let frame = own_scroll_frame(tree);
    forest_holds_tree(trees, trees.len() as int, i);
    assert forall|t: String| tree_text(trees[i]).contains(t) implies #[trigger] tree_text(
        tree,
    ).contains(t) by {
        let all = forest_text(trees, trees.len() as int);
        assert(all.contains(t));
        let k = choose|k: int| 0 <= k < all.len() && all[k] == t;
        assert((own + all)[own.len() + k] == t);
    }
    assert forall|f: Frame| scroll_frames(trees[i]).contains(f) implies #[trigger] scroll_frames(
        tree,
    ).contains(f) by {
        let all = forest_scroll_frames(trees, trees.len() as int);
        assert(all.contains(f));
        let k = choose|k: int| 0 <= k < all.len() && all[k] == f;
        assert((frame + all)[frame.len() + k] == f);
    }
}

proof fn forest_holds_tree(trees: Seq<AccessibilityNode>, n: int, i: int)
    requires
        0 <= i < n <= trees.len(),
    ensures
        forall|t: String|
            tree_text(trees[i]).contains(t) ==> #[trigger] forest_text(trees, n).contains(t),
        forall|f: Frame|
            scroll_frames(trees[i]).contains(f) ==> #[trigger] forest_scroll_frames(
                trees,
                n,
            ).contains(f),
    decreases n,
{
    let texts = forest_text(trees, n - 1);
    let frames = forest_scroll_frames(trees, n - 1);
    let last_texts = tree_text(trees[n - 1]);
    let last_frames = scroll_frames(trees[n - 1]);
    if i < n - 1 {
        forest_holds_tree(trees, n - 1, i);
    }
    assert forall|t: String| tree_text(trees[i]).contains(t) implies #[trigger] forest_text(
        trees,
        n,
    ).contains(t) by {
        if i < n - 1 {
            assert(texts.contains(t));
            let k = choose|k: int| 0 <= k < texts.len() && texts[k] == t;
            assert((texts + last_texts)[k] == t);
        } else {
            let k = choose|k: int| 0 <= k < last_texts.len() && last_texts[k] == t;
            assert((texts + last_texts)[texts.len() + k] == t);
        }
    }
    assert forall|f: Frame|
        scroll_frames(trees[i]).contains(f) implies #[trigger] forest_scroll_frames(
        trees,
        n,
    ).contains(f) by {
        if i < n - 1 {
            assert(frames.contains(f));
            let k = choose|k: int| 0 <= k < frames.len() && frames[k] == f;
            assert((frames + last_frames)[k] == f);
        } else {
            let k = choose|k: int| 0 <= k < last_frames.len() && last_frames[k] == f;
            assert((frames + last_frames)[frames.len() + k] == f);
        }
    }
}

/// No text is lost: wherever in a tree an element stands, the value of a static text, a
/// text field, a text area, a heading, a paragraph or a link is among the texts of the
/// tree, or its name where it has no value, and so is the name of any other element,
/// unless it is empty.
pub proof fn every_element_is_read(tree: AccessibilityNode, path: Seq<int>)
    requires
        element_at(tree, path) is Some,
    ensures
        ({
            let node = element_at(tree, path)->0;
            let text = node.role is StaticText || node.role is TextField || node.role is TextArea
                || node.role is Heading || node.role is Paragraph || node.role is Link;
            &&& text && node.value is Some ==> tree_text(tree).contains(node.value->0)
            &&& text && node.value is None && node.name is Some ==> tree_text(tree).contains(
                node.name->0,
            )
            &&& !text && node.name is Some && node.name->0@.len() > 0 ==> tree_text(
                tree,
            ).contains(node.name->0)
        }),
    decreases path.len(),
{
    if path.len() == 0 {
        let own = own_text(tree);
        assert(own.len() > 0 ==> tree_text(tree)[0] == own[0]);
    } else {
        every_element_is_read(tree.children@[path[0]], path.skip(1));
        children_are_read(tree, path[0]);
    }
}

/// No scroll area is overlooked: wherever in a tree one stands, its frame is among those
/// to choose from, where it is known. An element without others below it that is no scroll
/// area has no such frame, and one that is has only its own.
pub proof fn every_scroll_area_is_seen(tree: AccessibilityNode, path: Seq<int>)
    requires
        element_at(tree, path) is Some,
    ensures
        ({
            let node = element_at(tree, path)->0;
            &&& node.role is ScrollArea && node.frame is Some ==> scroll_frames(tree).contains(
                node.frame->0,
            )
            &&& node.children@.len() == 0 && node.role is ScrollArea && node.frame is Some
                ==> scroll_frames(node) == seq![node.frame->0]
            &&& node.children@.len() == 0 && !(node.role is ScrollArea && node.frame is Some)
                ==> scroll_frames(node).len() == 0
        }),
    decreases path.len(),
{
    let node = element_at(tree, path)->0;
    assert(forest_scroll_frames(node.children@, 0) =~= Seq::<Frame>::empty());
    assert(node.children@.len() == 0 ==> scroll_frames(node) =~= own_scroll_frame(node));
    if path.len() == 0 {
        if node.role is ScrollArea && node.frame is Some {
            assert(scroll_frames(tree)[0] == node.frame->0);
        }
    } else {
        every_scroll_area_is_seen(tree.children@[path[0]], path.skip(1));
        children_are_read(tree, path[0]);
    }
}

/// Where an application is scrolled. If any scroll area in it has an area above zero, the
/// place is the centre of one that is at least as large as every other. If none has, it is
/// the anchor of the first element directly below the application, whatever its role; and
/// without that, or if its frame is not known, there is no place.
pub proof fn the_largest_scroll_area_is_scrolled_in(tree: AccessibilityNode, path: Seq<int>)
    ensures
        ({
            let node = element_at(tree, path)->0;
            let point = best_scroll_point(tree);
            element_at(tree, path) is Some && node.role is ScrollArea && node.frame is Some
                && node.frame->0.area > 0 ==> exists|k: int|
                {
                    &&& 0 <= k < scroll_frames(tree).len()
                    &&& point == Some((#[trigger] scroll_frames(tree)[k]).center)
                    &&& node.frame->0.area <= scroll_frames(tree)[k].area
                    &&& forall|j: int|
                        0 <= j < k ==> (#[trigger] scroll_frames(tree)[j]).area < scroll_frames(
                            tree,
                        )[k].area
                }
        }),
        (forall|k: int|
            0 <= k < scroll_frames(tree).len() ==> (#[trigger] scroll_frames(tree)[k]).area == 0)
            ==> best_scroll_point(tree) == (if tree.children@.len() > 0
            && tree.children@[0].frame is Some {
            Some(tree.children@[0].frame->0.scroll_anchor)
        } else {
            None
        }),
{
    let frames = scroll_frames(tree);
    if element_at(tree, path) is Some {
        let node = element_at(tree, path)->0;
        every_scroll_area_is_seen(tree, path);
        if node.role is ScrollArea && node.frame is Some && node.frame->0.area > 0 {
            let i = choose|i: int| 0 <= i < frames.len() && frames[i] == node.frame->0;
            assert(frames[i].area > 0);
            largest_frame_is_chosen(frames);
            let k = choose|k: int|
                {
                    &&& 0 <= k < frames.len()
                    &&& largest(frames, (None, 0)) == (
                        Some((#[trigger] frames[k]).center),
                        frames[k].area,
                    )
                    &&& forall|j: int| 0 <= j < frames.len() ==> (#[trigger] frames[j]).area
                        <= frames[k].area
                    &&& forall|j: int| 0 <= j < k ==> (#[trigger] frames[j]).area
                        < frames[k].area
                };
            assert(frames[i].area <= frames[k].area);
            assert(best_scroll_point(tree) == Some(frames[k].center));
        }
    }
    if forall|k: int| 0 <= k < frames.len() ==> (#[trigger] frames[k]).area == 0 {
        no_area_is_chosen(frames);
    }
}

/// The place of an element is the centre of its frame.
pub proof fn elements_are_placed_at_their_centre(node: AccessibilityNode)
    ensures
        node.frame is Some ==> center_of(node) == Some(node.frame->0.center),
        node.frame is None ==> center_of(node) is None,
{
}

/// Whatever was best before, only a larger frame replaces it, and then it is replaced by a
/// frame of the list that is at least as large as every other.
pub proof fn only_a_larger_frame_is_better(
    frames: Seq<Frame>,
    best: (Option<Point>, u64),
    i: int,
)
    ensures
        (forall|j: int| 0 <= j < frames.len() ==> (#[trigger] frames[j]).area <= best.1)
            ==> largest(frames, best) == best,
        0 <= i < frames.len() && frames[i].area > best.1 ==> exists|k: int|
            {
                &&& 0 <= k < frames.len()
                &&& largest(frames, best) == (Some((#[trigger] frames[k]).center), frames[k].area)
                &&& frames[k].area >= frames[i].area
            },
    decreases frames.len(),
{
    if frames.len() > 0 {
        let rest = frames.drop_last();
        let n = frames.len() - 1;
        assert(forall|j: int| 0 <= j < n ==> rest[j] == frames[j]);
        if forall|j: int| 0 <= j < frames.len() ==> (#[trigger] frames[j]).area <= best.1 {
            assert forall|j: int| 0 <= j < rest.len() implies (#[trigger] rest[j]).area
                <= best.1 by {
                assert(frames[j].area <= best.1);
            }
            only_a_larger_frame_is_better(rest, best, 0);
            assert(frames[n].area <= best.1);
        }
        if 0 <= i < frames.len() && frames[i].area > best.1 {
            let before = largest(rest, best);
            if exists|m: int| 0 <= m < rest.len() && (#[trigger] rest[m]).area > best.1 {
                let m = if i < n {
                    i
                } else {
                    choose|m: int| 0 <= m < rest.len() && (#[trigger] rest[m]).area > best.1
                };
                assert(rest[m].area > best.1);
                only_a_larger_frame_is_better(rest, best, m);
                let k = choose|k: int|
                    {
                        &&& 0 <= k < rest.len()
                        &&& before == (Some((#[trigger] rest[k]).center), rest[k].area)
                        &&& rest[k].area >= rest[m].area
                    };
                if frames[n].area > before.1 {
                    assert(largest(frames, best) == (Some(frames[n].center), frames[n].area));
                } else {
                    assert(largest(frames, best) == (Some(frames[k].center), frames[k].area));
                }
            } else {
                assert forall|j: int| 0 <= j < rest.len() implies (#[trigger] rest[j]).area
                    <= best.1 by {}
                only_a_larger_frame_is_better(rest, best, 0);
                assert(i == n) by {
                    if i < n {
                        assert(rest[i].area > best.1);
                    }
                }
                assert(largest(frames, best) == (Some(frames[n].center), frames[n].area));
            }
        }
    }
}

} // verus!
