//! The tree of layers of a document.

use crate::text::same;
use vstd::prelude::*;
use vstd::string::*;

verus! {

/// A mask over a layer: the pixels that hold its coverage, and whether it is
/// applied.
#[derive(Clone, Copy, PartialEq, Eq, Structural)]
pub struct LayerMask {
    pub pixels: u64,
    pub enabled: bool,
}

/// A colour of the palette.
#[derive(Clone, Copy, PartialEq, Eq, Structural)]
pub struct Rgb {
    pub red: u8,
    pub green: u8,
    pub blue: u8,
}

/// The kinds of adjustments.
#[derive(Clone, Copy, PartialEq, Eq, Structural)]
pub enum AdjustmentKind {
    Invert,
    Exposure,
    Levels,
    HueSaturation,
    GradientMap,
    Grain,
    Curves,
}

/// What an adjustment does to the layers beneath it. Numbers are in
/// millionths. `values` holds the knobs of the kind in their order, `low` and
/// `high` the colours of a gradient map, and `channels` the points of the
/// curves for red, green and blue, each an input and an output.
pub struct Adjustment {
    pub kind: AdjustmentKind,
    pub values: Vec<i64>,
    pub low: Rgb,
    pub high: Rgb,
    pub channels: Vec<Vec<(i64, i64)>>,
}

#[verifier::ext_equal]
pub struct AdjustmentView {
    pub kind: AdjustmentKind,
    pub values: Seq<i64>,
    pub low: Rgb,
    pub high: Rgb,
    pub channels: Seq<Seq<(i64, i64)>>,
}

/// The points of the channels of curves.
pub open spec fn channel_views(v: Seq<Vec<(i64, i64)>>) -> Seq<Seq<(i64, i64)>> {
    Seq::new(v.len(), |i: int| v[i]@)
}

impl View for Adjustment {
    type V = AdjustmentView;

    open spec fn view(&self) -> AdjustmentView {
        AdjustmentView {
            kind: self.kind,
            values: self.values@,
            low: self.low,
            high: self.high,
            channels: channel_views(self.channels@),
        }
    }
}

fn copy_points(v: &Vec<(i64, i64)>) -> (r: Vec<(i64, i64)>)
    ensures
        r@ == v@,
{
    let mut out: Vec<(i64, i64)> = Vec::new();
    let mut i: usize = 0;
    while i < v.len()
        invariant
            i <= v.len(),
            out@ == v@.take(i as int),
        decreases v.len() - i,
    {
        out.push(v[i]);
        proof {
            assert(v@.take(i + 1) =~= v@.take(i as int).push(v@[i as int]));
        }
        i = i + 1;
    }
    proof {
        assert(v@.take(v@.len() as int) =~= v@);
    }
    out
}

/// A copy of the channels of curves.
pub fn copy_channels(v: &Vec<Vec<(i64, i64)>>) -> (r: Vec<Vec<(i64, i64)>>)
    ensures
        channel_views(r@) == channel_views(v@),
{
    let mut out: Vec<Vec<(i64, i64)>> = Vec::new();
    let mut i: usize = 0;
    while i < v.len()
        invariant
            i <= v.len(),
            out@.len() == i,
            forall|j: int| 0 <= j < i ==> (#[trigger] out@[j])@ == v@[j]@,
        decreases v.len() - i,
    {
        out.push(copy_points(&v[i]));
        i = i + 1;
    }
    proof {
        assert(channel_views(out@) =~= channel_views(v@));
    }
    out
}

fn copy_values(v: &Vec<i64>) -> (r: Vec<i64>)
    ensures
        r@ == v@,
{
    let mut out: Vec<i64> = Vec::new();
    let mut i: usize = 0;
    while i < v.len()
        invariant
            i <= v.len(),
            out@ == v@.take(i as int),
        decreases v.len() - i,
    {
        out.push(v[i]);
        proof {
            assert(v@.take(i + 1) =~= v@.take(i as int).push(v@[i as int]));
        }
        i = i + 1;
    }
    proof {
        assert(v@.take(v@.len() as int) =~= v@);
    }
    out
}

impl Adjustment {
    pub fn copy(&self) -> (r: Adjustment)
        ensures
            r@ == self@,
    {
        Adjustment {
            kind: self.kind,
            values: copy_values(&self.values),
            low: self.low,
            high: self.high,
            channels: copy_channels(&self.channels),
        }
    }
}

/// What a node of the tree is.
pub enum Body {
    /// A layer of pixels.
    Image(u64),
    /// A group, its children from back to front.
    Group(Vec<LayerNode>),
    Adjustment(Adjustment),
}

/// A node of the tree. The opacity is in millionths.
pub struct LayerNode {
    pub id: u64,
    pub name: String,
    pub hidden: bool,
    pub opacity: u32,
    pub mask: Option<LayerMask>,
    pub body: Body,
}

#[verifier::ext_equal]
pub enum BodyView {
    Image(u64),
    Group(Seq<NodeView>),
    Adjustment(AdjustmentView),
}

#[verifier::ext_equal]
pub struct NodeView {
    pub id: u64,
    pub name: Seq<char>,
    pub hidden: bool,
    pub opacity: u32,
    pub mask: Option<LayerMask>,
    pub body: BodyView,
}

impl LayerNode {
    /// The mathematical value of a node.
    pub open spec fn model(self) -> NodeView
        decreases self,
    {
        NodeView {
            id: self.id,
            name: self.name@,
            hidden: self.hidden,
            opacity: self.opacity,
            mask: self.mask,
            body: match self.body {
                Body::Image(pixels) => BodyView::Image(pixels),
                Body::Group(v) => BodyView::Group(
                    Seq::new(
                        v@.len(),
                        |i: int|
                            if 0 <= i < v@.len() {
                                v@[i].model()
                            } else {
                                arbitrary()
                            },
                    ),
                ),
                Body::Adjustment(a) => BodyView::Adjustment(a@),
            },
        }
    }
}

impl View for LayerNode {
    type V = NodeView;

    open spec fn view(&self) -> NodeView {
        self.model()
    }
}

/// The views of a list of nodes.
pub open spec fn forest(v: Seq<LayerNode>) -> Seq<NodeView> {
    Seq::new(v.len(), |i: int| v[i]@)
}

/// The children of a node; none where it is no group.
pub open spec fn group_of(node: NodeView) -> Option<Seq<NodeView>> {
    match node.body {
        BodyView::Group(children) => Some(children),
        _ => None,
    }
}

/// The pixels of a node; none where it is no layer of pixels.
pub open spec fn image_of(node: NodeView) -> Option<u64> {
    match node.body {
        BodyView::Image(pixels) => Some(pixels),
        _ => None,
    }
}

/// The pixels that painting a node lands on.
pub fn node_image_pixels(node: &LayerNode) -> (r: Option<u64>)
    ensures
        r == image_of(node@),
{
    match &node.body {
        Body::Image(pixels) => Some(*pixels),
        _ => None,
    }
}

pub proof fn group_model(node: LayerNode)
    ensures
        node.body matches Body::Group(v) ==> group_of(node@) == Some(forest(v@)),
{
    if let Body::Group(v) = node.body {
        assert(group_of(node@)->0 =~= forest(v@));
    }
}

impl LayerNode {
    pub fn copy(&self) -> (r: LayerNode)
        ensures
            r@ == self@,
        decreases self,
    {
        let body: Body = match &self.body {
            Body::Image(pixels) => Body::Image(*pixels),
            Body::Group(v) => {
                let mut out: Vec<LayerNode> = Vec::new();
                let mut i: usize = 0;
                while i < v.len()
                    invariant
                        i <= v.len(),
                        self.body == Body::Group(*v),
                        out@.len() == i,
                        forall|j: int| 0 <= j < i ==> (#[trigger] out@[j])@ == v@[j]@,
                    decreases v.len() - i,
                {
                    proof {
                        assert(decreases_to!(self.body => self.body->Group_0));
                        assert(decreases_to!(self.body->Group_0 => v@[i as int]));
                    }
                    out.push(v[i].copy());
                    i = i + 1;
                }
                Body::Group(out)
            },
            Body::Adjustment(a) => Body::Adjustment(a.copy()),
        };
        let r: LayerNode = LayerNode {
            id: self.id,
            name: self.name.clone(),
            hidden: self.hidden,
            opacity: self.opacity,
            mask: self.mask,
            body,
        };
        proof {
            if self.body is Group {
                assert(r@.body->Group_0 =~= self@.body->Group_0);
            }
        }
        r
    }
}

/// The node of an identity, found from back to front and downwards.
pub open spec fn find_in(nodes: Seq<NodeView>, id: u64) -> Option<NodeView>
    decreases nodes,
{
    if nodes.len() == 0 {
        None
    } else if nodes[0].id == id {
        Some(nodes[0])
    } else {
        let deeper = match nodes[0].body {
            BodyView::Group(children) => find_in(children, id),
            _ => None,
        };
        match deeper {
            Some(node) => Some(node),
            None => find_in(nodes.subrange(1, nodes.len() as int), id),
        }
    }
}

/// The node of an identity.
pub fn find<'a>(nodes: &'a Vec<LayerNode>, id: u64) -> (r: Option<&'a LayerNode>)
    ensures
        match r {
            Some(node) => find_in(forest(nodes@), id) == Some(node@),
            None => find_in(forest(nodes@), id) is None,
        },
    decreases nodes,
{
    let ghost all = forest(nodes@);
    let mut i: usize = 0;
    proof {
        assert(all.subrange(0, all.len() as int) =~= all);
    }
    while i < nodes.len()
        invariant
            i <= nodes.len(),
            all == forest(nodes@),
            find_in(all, id) == find_in(all.subrange(i as int, all.len() as int), id),
        decreases nodes.len() - i,
    {
        let ghost rest = all.subrange(i as int, all.len() as int);
        proof {
            assert(rest[0] == nodes@[i as int]@);
            assert(rest.subrange(1, rest.len() as int) =~= all.subrange(
                i + 1,
                all.len() as int,
            ));
            group_model(nodes@[i as int]);
            assert(decreases_to!(nodes@ => nodes@[i as int]));
        }
        if nodes[i].id == id {
            return Some(&nodes[i]);
        }
        if let Body::Group(children) = &nodes[i].body {
            proof {
                assert(decreases_to!(nodes@[i as int].body => nodes@[i as int].body->Group_0));
            }
            if let Some(node) = find(children, id) {
                return Some(node);
            }
        }
        i = i + 1;
    }
    None
}

/// The direct place of an identity in a list.
pub open spec fn place_of(nodes: Seq<NodeView>, id: u64) -> Option<int> {
    crate::lists::first_where(nodes, has_id(id))
}

pub open spec fn has_id(id: u64) -> spec_fn(NodeView) -> bool {
    |node: NodeView| node.id == id
}

fn find_place(nodes: &Vec<LayerNode>, id: u64) -> (r: Option<usize>)
    ensures
        match r {
            Some(i) => place_of(forest(nodes@), id) == Some(i as int) && i < nodes.len()
                && nodes@[i as int].id == id,
            None => place_of(forest(nodes@), id) is None,
        },
{
    let ghost all = forest(nodes@);
    let mut i: usize = 0;
    while i < nodes.len()
        invariant
            i <= nodes.len(),
            all == forest(nodes@),
            crate::lists::first_from(all, has_id(id), 0) == crate::lists::first_from(
                all,
                has_id(id),
                i as int,
            ),
        decreases nodes.len() - i,
    {
        proof {
            assert(all[i as int] == nodes@[i as int]@);
        }
        if nodes[i].id == id {
            return Some(i);
        }
        i = i + 1;
    }
    None
}

/// The container of an identity and its place in it; no container stands for
/// the root.
pub open spec fn slot_in(nodes: Seq<NodeView>, id: u64, container: Option<u64>) -> Option<
    (Option<u64>, int),
>
    decreases nodes, 1int,
{
    match place_of(nodes, id) {
        Some(i) => Some((container, i)),
        None => slot_below(nodes, id),
    }
}

/// The container of an identity among the groups of a list, and its place in
/// it.
pub open spec fn slot_below(nodes: Seq<NodeView>, id: u64) -> Option<(Option<u64>, int)>
    decreases nodes, 0int,
{
    if nodes.len() == 0 {
        None
    } else {
        let deeper = match nodes[0].body {
            BodyView::Group(children) => slot_in(children, id, Some(nodes[0].id)),
            _ => None,
        };
        match deeper {
            Some(slot) => Some(slot),
            None => slot_below(nodes.subrange(1, nodes.len() as int), id),
        }
    }
}

/// The view of a container and a place in it.
pub open spec fn opt_slot(r: Option<(Option<u64>, usize)>) -> Option<(Option<u64>, int)> {
    match r {
        Some((container, i)) => Some((container, i as int)),
        None => None,
    }
}

/// The container of an identity and its place in it.
pub fn find_slot(nodes: &Vec<LayerNode>, id: u64, container: Option<u64>) -> (r: Option<
    (Option<u64>, usize),
>)
    ensures
        opt_slot(r) == slot_in(forest(nodes@), id, container),
    decreases nodes,
{
    if let Some(i) = find_place(nodes, id) {
        return Some((container, i));
    }
    let ghost all = forest(nodes@);
    let mut i: usize = 0;
    proof {
        assert(all.subrange(0, all.len() as int) =~= all);
    }
    while i < nodes.len()
        invariant
            i <= nodes.len(),
            all == forest(nodes@),
            place_of(all, id) is None,
            slot_below(all, id) == slot_below(all.subrange(i as int, all.len() as int), id),
        decreases nodes.len() - i,
    {
        let ghost rest = all.subrange(i as int, all.len() as int);
        proof {
            assert(rest[0] == nodes@[i as int]@);
            assert(rest.subrange(1, rest.len() as int) =~= all.subrange(
                i + 1,
                all.len() as int,
            ));
            group_model(nodes@[i as int]);
            assert(decreases_to!(nodes@ => nodes@[i as int]));
        }
        if let Body::Group(children) = &nodes[i].body {
            proof {
                assert(decreases_to!(nodes@[i as int].body => nodes@[i as int].body->Group_0));
            }
            let found: Option<(Option<u64>, usize)> = find_slot(children, id, Some(nodes[i].id));
            if found.is_some() {
                return found;
            }
        }
        i = i + 1;
    }
    None
}

/// How many nodes there are, at any depth.
pub open spec fn node_count(nodes: Seq<NodeView>) -> nat
    decreases nodes,
{
    if nodes.len() == 0 {
        0
    } else {
        let last = nodes[nodes.len() - 1];
        let deeper = match last.body {
            BodyView::Group(children) => node_count(children),
            _ => 0,
        };
        node_count(nodes.subrange(0, nodes.len() - 1)) + 1 + deeper
    }
}

/// How many nodes there are, at any depth; the largest number where there are
/// more.
pub fn count_nodes(nodes: &Vec<LayerNode>) -> (r: u64)
    ensures
        r == if node_count(forest(nodes@)) <= u64::MAX {
            node_count(forest(nodes@)) as u64
        } else {
            u64::MAX
        },
    decreases nodes,
{
    let ghost all = forest(nodes@);
    let mut total: u64 = 0;
    let mut i: usize = 0;
    proof {
        assert(all.take(0) =~= Seq::empty());
    }
    while i < nodes.len()
        invariant
            i <= nodes.len(),
            all == forest(nodes@),
            total == if node_count(all.take(i as int)) <= u64::MAX {
                node_count(all.take(i as int)) as u64
            } else {
                u64::MAX
            },
        decreases nodes.len() - i,
    {
        proof {
            let next = all.take(i + 1);
            assert(next[next.len() - 1] == nodes@[i as int]@);
            assert(next.subrange(0, next.len() - 1) =~= all.take(i as int));
            group_model(nodes@[i as int]);
            assert(decreases_to!(nodes@ => nodes@[i as int]));
        }
        let deeper: u64 = match &nodes[i].body {
            Body::Group(children) => {
                proof {
                    assert(decreases_to!(
                        nodes@[i as int].body => nodes@[i as int].body->Group_0
                    ));
                }
                count_nodes(children)
            },
            _ => 0,
        };
        total = total.saturating_add(1).saturating_add(deeper);
        i = i + 1;
    }
    proof {
        assert(all.take(all.len() as int) =~= all);
    }
    total
}

/// The pixels of a mask.
pub open spec fn mask_ids(node: NodeView) -> Seq<u64> {
    match node.mask {
        Some(mask) => seq![mask.pixels],
        None => Seq::empty(),
    }
}

/// The pixels that nodes name, layers and masks alike, at any depth.
pub open spec fn pixel_ids(nodes: Seq<NodeView>) -> Seq<u64>
    decreases nodes,
{
    if nodes.len() == 0 {
        Seq::empty()
    } else {
        let last = nodes[nodes.len() - 1];
        let own = match last.body {
            BodyView::Image(pixels) => seq![pixels],
            BodyView::Group(children) => pixel_ids(children),
            BodyView::Adjustment(_) => Seq::empty(),
        };
        pixel_ids(nodes.subrange(0, nodes.len() - 1)) + own + mask_ids(last)
    }
}

/// The pixels that nodes name.
pub fn collect_pixels(nodes: &Vec<LayerNode>) -> (r: Vec<u64>)
    ensures
        r@ == pixel_ids(forest(nodes@)),
    decreases nodes,
{
    let ghost all = forest(nodes@);
    let mut out: Vec<u64> = Vec::new();
    let mut i: usize = 0;
    proof {
        assert(all.take(0) =~= Seq::empty());
    }
    while i < nodes.len()
        invariant
            i <= nodes.len(),
            all == forest(nodes@),
            out@ == pixel_ids(all.take(i as int)),
        decreases nodes.len() - i,
    {
        let ghost before = out@;
        let ghost node = nodes@[i as int]@;
        proof {
            let next = all.take(i + 1);
            assert(next[next.len() - 1] == node);
            assert(next.subrange(0, next.len() - 1) =~= all.take(i as int));
            group_model(nodes@[i as int]);
            assert(decreases_to!(nodes@ => nodes@[i as int]));
        }
        match &nodes[i].body {
            Body::Image(pixels) => {
                out.push(*pixels);
                proof {
                    assert(out@ =~= before + seq![*pixels]);
                }
            },
            Body::Group(children) => {
                proof {
                    assert(decreases_to!(
                        nodes@[i as int].body => nodes@[i as int].body->Group_0
                    ));
                }
                let mut deeper: Vec<u64> = collect_pixels(children);
                out.append(&mut deeper);
            },
            Body::Adjustment(_) => {
                proof {
                    assert(out@ =~= before + Seq::<u64>::empty());
                }
            },
        }
        let ghost own = out@;
        if let Some(mask) = nodes[i].mask {
            out.push(mask.pixels);
        }
        proof {
            assert(out@ =~= own + mask_ids(node));
        }
        i = i + 1;
    }
    proof {
        assert(all.take(all.len() as int) =~= all);
    }
    out
}

fn same_values(a: &Vec<i64>, b: &Vec<i64>) -> (r: bool)
    ensures
        r == (a@ == b@),
{
    if a.len() != b.len() {
        return false;
    }
    let mut i: usize = 0;
    while i < a.len()
        invariant
            i <= a.len(),
            a.len() == b.len(),
            forall|j: int| 0 <= j < i ==> a@[j] == b@[j],
        decreases a.len() - i,
    {
        if a[i] != b[i] {
            return false;
        }
        i = i + 1;
    }
    proof {
        assert(a@ =~= b@);
    }
    true
}

fn same_points(a: &Vec<(i64, i64)>, b: &Vec<(i64, i64)>) -> (r: bool)
    ensures
        r == (a@ == b@),
{
    if a.len() != b.len() {
        return false;
    }
    let mut i: usize = 0;
    while i < a.len()
        invariant
            i <= a.len(),
            a.len() == b.len(),
            forall|j: int| 0 <= j < i ==> a@[j] == b@[j],
        decreases a.len() - i,
    {
        if a[i].0 != b[i].0 || a[i].1 != b[i].1 {
            return false;
        }
        i = i + 1;
    }
    proof {
        assert(a@ =~= b@);
    }
    true
}

fn same_channels(a: &Vec<Vec<(i64, i64)>>, b: &Vec<Vec<(i64, i64)>>) -> (r: bool)
    ensures
        r == (channel_views(a@) == channel_views(b@)),
{
    if a.len() != b.len() {
        proof {
            assert(channel_views(a@).len() != channel_views(b@).len());
        }
        return false;
    }
    let mut i: usize = 0;
    while i < a.len()
        invariant
            i <= a.len(),
            a.len() == b.len(),
            forall|j: int| 0 <= j < i ==> (#[trigger] a@[j])@ == b@[j]@,
        decreases a.len() - i,
    {
        if !same_points(&a[i], &b[i]) {
            proof {
                assert(channel_views(a@)[i as int] != channel_views(b@)[i as int]);
            }
            return false;
        }
        i = i + 1;
    }
    proof {
        assert(channel_views(a@) =~= channel_views(b@));
    }
    true
}

fn same_mask(a: Option<LayerMask>, b: Option<LayerMask>) -> (r: bool)
    ensures
        r == (a == b),
{
    match (a, b) {
        (Some(x), Some(y)) => x == y,
        (None, None) => true,
        _ => false,
    }
}

/// Whether two lists of nodes are the same.
pub fn same_nodes(a: &Vec<LayerNode>, b: &Vec<LayerNode>) -> (r: bool)
    ensures
        r == (forest(a@) == forest(b@)),
    decreases a,
{
    let ghost x = forest(a@);
    let ghost y = forest(b@);
    if a.len() != b.len() {
        proof {
            assert(x.len() != y.len());
        }
        return false;
    }
    let mut i: usize = 0;
    while i < a.len()
        invariant
            i <= a.len(),
            a.len() == b.len(),
            x == forest(a@),
            y == forest(b@),
            forall|j: int| 0 <= j < i ==> #[trigger] x[j] == y[j],
        decreases a.len() - i,
    {
        proof {
            assert(x[i as int] == a@[i as int]@);
            assert(y[i as int] == b@[i as int]@);
            group_model(a@[i as int]);
            group_model(b@[i as int]);
            assert(decreases_to!(a@ => a@[i as int]));
        }
        let m: &LayerNode = &a[i];
        let n: &LayerNode = &b[i];
        let bodies: bool = match (&m.body, &n.body) {
            (Body::Image(p), Body::Image(q)) => *p == *q,
            (Body::Group(p), Body::Group(q)) => {
                proof {
                    assert(decreases_to!(a@[i as int].body => a@[i as int].body->Group_0));
                }
                same_nodes(p, q)
            },
            (Body::Adjustment(p), Body::Adjustment(q)) => p.kind == q.kind && same_values(
                &p.values,
                &q.values,
            ) && p.low == q.low && p.high == q.high && same_channels(&p.channels, &q.channels),
            _ => false,
        };
        if !(bodies && m.id == n.id && same(m.name.as_str(), n.name.as_str()) && m.hidden
            == n.hidden && m.opacity == n.opacity && same_mask(m.mask, n.mask)) {
            return false;
        }
        i = i + 1;
    }
    proof {
        assert(x =~= y);
    }
    true
}

/// A document: the size of its canvas, the identity that the next node gets,
/// and its layers from back to front.
pub struct Document {
    pub width: u32,
    pub height: u32,
    pub next: u64,
    pub children: Vec<LayerNode>,
}

#[verifier::ext_equal]
pub struct DocumentView {
    pub width: u32,
    pub height: u32,
    pub next: u64,
    pub children: Seq<NodeView>,
}

impl View for Document {
    type V = DocumentView;

    open spec fn view(&self) -> DocumentView {
        DocumentView {
            width: self.width,
            height: self.height,
            next: self.next,
            children: forest(self.children@),
        }
    }
}

/// A document without layers.
pub open spec fn blank(width: u32, height: u32) -> DocumentView {
    DocumentView { width, height, next: 1, children: Seq::empty() }
}

/// A new node: shown, fully opaque, and without a mask.
pub open spec fn fresh_node(id: u64, name: Seq<char>, body: BodyView) -> NodeView {
    NodeView { id, name, hidden: false, opacity: 1_000_000, mask: None, body }
}

impl DocumentView {
    /// The document with one more layer of pixels in front.
    pub open spec fn with_layer(self, name: Seq<char>, pixels: u64) -> DocumentView {
        DocumentView {
            next: crate::panes::canvas::store::after(self.next),
            children: self.children.push(fresh_node(self.next, name, BodyView::Image(pixels))),
            ..self
        }
    }
}

impl Document {
    pub fn new(width: u32, height: u32) -> (r: Document)
        ensures
            r@ == blank(width, height),
    {
        let r: Document = Document { width, height, next: 1, children: Vec::new() };
        proof {
            assert(r@.children =~= Seq::empty());
        }
        r
    }

    pub fn copy(&self) -> (r: Document)
        ensures
            r@ == self@,
    {
        let mut out: Vec<LayerNode> = Vec::new();
        let mut i: usize = 0;
        while i < self.children.len()
            invariant
                i <= self.children.len(),
                out@.len() == i,
                forall|j: int| 0 <= j < i ==> (#[trigger] out@[j])@ == self.children@[j]@,
            decreases self.children.len() - i,
        {
            out.push(self.children[i].copy());
            i = i + 1;
        }
        let r: Document = Document {
            width: self.width,
            height: self.height,
            next: self.next,
            children: out,
        };
        proof {
            assert(r@.children =~= self@.children);
        }
        r
    }

    /// Whether two documents are the same.
    pub fn same_as(&self, other: &Document) -> (r: bool)
        ensures
            r == (self@ == other@),
    {
        self.width == other.width && self.height == other.height && self.next == other.next
            && same_nodes(&self.children, &other.children)
    }

    /// Adds a layer of pixels in front; the result is its identity.
    pub fn new_layer(&mut self, name: String, pixels: u64) -> (r: u64)
        ensures
            final(self)@ == old(self)@.with_layer(name@, pixels),
            r == old(self)@.next,
    {
        let id: u64 = self.next;
        let ghost before = self.children@;
        let node: LayerNode = LayerNode {
            id,
            name,
            hidden: false,
            opacity: 1_000_000,
            mask: None,
            body: Body::Image(pixels),
        };
        let ghost view = node@;
        self.children.push(node);
        self.next = crate::panes::canvas::store::next_number(id);
        proof {
            assert(forest(self.children@) =~= forest(before).push(view));
        }
        id
    }
}

} // verus!
