//! Which answer boxes of an exam are read on a given page.

use vstd::prelude::*;

verus! {

/// The kind of a question.
#[derive(Clone, Copy, Debug, PartialEq, Eq, Structural)]
pub enum Kind {
    /// A box that is either checked or blank.
    Binary,
    /// Any other kind of question; the scanner cannot read it yet.
    Other,
}

/// The page and kind of one answer box; where it lies on the page is kept
/// by the caller.
#[derive(Clone, Copy, Debug, PartialEq, Eq, Structural)]
pub struct BoxSpec {
    pub page: u8,
    pub kind: Kind,
}

/// The positions, in order, of the boxes that lie on `page`.
pub open spec fn page_indices(boxes: Seq<BoxSpec>, page: u8) -> Seq<usize>
    decreases boxes.len(),
{
    if boxes.len() == 0 {
        seq![]
    } else {
        page_indices(boxes.drop_last(), page) + if boxes.last().page == page {
            seq![(boxes.len() - 1) as usize]
        } else {
            seq![]
        }
    }
}

/// The boxes that lie on `page`, in order.
pub open spec fn page_boxes(boxes: Seq<BoxSpec>, page: u8) -> Seq<BoxSpec>
    decreases boxes.len(),
{
    if boxes.len() == 0 {
        seq![]
    } else {
        page_boxes(boxes.drop_last(), page) + if boxes.last().page == page {
            seq![boxes.last()]
        } else {
            seq![]
        }
    }
}

/// The boxes at the given positions, in order.
pub open spec fn boxes_at(boxes: Seq<BoxSpec>, positions: Seq<usize>) -> Seq<BoxSpec> {
    positions.map_values(|i: usize| boxes[i as int])
}

/// How many binary boxes lie on `page`.
pub open spec fn binary_count(boxes: Seq<BoxSpec>, page: u8) -> nat
    decreases boxes.len(),
{
    if boxes.len() == 0 {
        0
    } else {
        binary_count(boxes.drop_last(), page) + if boxes.last().page == page
            && boxes.last().kind == Kind::Binary {
            1nat
        } else {
            0nat
        }
    }
}

/// Every box on `page` is a binary box.
pub open spec fn page_all_binary(boxes: Seq<BoxSpec>, page: u8) -> bool {
    forall|i: int| 0 <= i < boxes.len() && boxes[i].page == page ==> boxes[i].kind == Kind::Binary
}

proof fn lemma_binary_count_bound(boxes: Seq<BoxSpec>, page: u8)
    ensures
        binary_count(boxes, page) <= boxes.len(),
    decreases boxes.len(),
{
    if boxes.len() > 0 {
        lemma_binary_count_bound(boxes.drop_last(), page);
    }
}

/// The boxes read on a page are exactly those that lie on it, each once and
/// in order.
pub proof fn law_page_indices(boxes: Seq<BoxSpec>, page: u8)
    requires
        boxes.len() <= usize::MAX,
    ensures
        forall|k: int|
            0 <= k < page_indices(boxes, page).len() ==> {
                &&& (#[trigger] page_indices(boxes, page)[k]) < boxes.len()
                &&& boxes[page_indices(boxes, page)[k] as int].page == page
            },
        forall|i: int|
            0 <= i < boxes.len() && (#[trigger] boxes[i]).page == page ==> page_indices(
                boxes,
                page,
            ).contains(i as usize),
        forall|k1: int, k2: int|
            0 <= k1 < k2 < page_indices(boxes, page).len() ==> (#[trigger] page_indices(
                boxes,
                page,
            )[k1]) < (#[trigger] page_indices(boxes, page)[k2]),
    decreases boxes.len(),
{
    if boxes.len() > 0 {
        let d = boxes.drop_last();
        law_page_indices(d, page);
        let p = page_indices(d, page);
        let q = page_indices(boxes, page);
        let last = (boxes.len() - 1) as usize;
        if boxes.last().page == page {
            assert(q == p + seq![last]);
        } else {
            assert(q == p + Seq::<usize>::empty());
            assert(q =~= p);
        }
        assert forall|k: int| 0 <= k < q.len() implies (#[trigger] q[k]) < boxes.len() && boxes[q[k] as int].page == page by {
            if k < p.len() {
                assert(q[k] == p[k]);
                assert(d[p[k] as int] == boxes[p[k] as int]);
            } else {
                assert(q[k] == last);
            }
        }
        assert forall|i: int| 0 <= i < boxes.len() && (#[trigger] boxes[i]).page == page implies q.contains(i as usize) by {
            if i < d.len() {
                assert(d[i] == boxes[i]);
                let k = choose|k: int| 0 <= k < p.len() && p[k] == i as usize;
                assert(q[k] == p[k]);
            } else {
                assert(q[q.len() - 1] == i as usize);
            }
        }
        assert forall|k1: int, k2: int| 0 <= k1 < k2 < q.len() implies (#[trigger] q[k1]) < (#[trigger] q[k2]) by {
            assert(q[k1] == p[k1]);
            if k2 < p.len() {
                assert(q[k2] == p[k2]);
            } else {
                assert(p[k1] < d.len());
                assert(q[k2] == last);
            }
        }
    }
}

/// The boxes read on a page, taken at the positions `boxes_on_page` gives,
/// are the boxes that lie on that page, in order.
pub proof fn law_boxes_read_are_page_boxes(boxes: Seq<BoxSpec>, page: u8)
    requires
        boxes.len() <= usize::MAX,
    ensures
        boxes_at(boxes, page_indices(boxes, page)) == page_boxes(boxes, page),
    decreases boxes.len(),
{
    if boxes.len() > 0 {
        let d = boxes.drop_last();
        law_boxes_read_are_page_boxes(d, page);
        law_page_indices(d, page);
        let p = page_indices(d, page);
        let last = (boxes.len() - 1) as usize;
        assert forall|k: int| 0 <= k < p.len() implies boxes_at(boxes, p)[k] == boxes_at(d, p)[k] by {
            assert(p[k] < d.len());
            assert(d[p[k] as int] == boxes[p[k] as int]);
        }
        assert(boxes_at(boxes, p) =~= boxes_at(d, p));
        if boxes.last().page == page {
            assert(page_indices(boxes, page) == p + seq![last]);
            assert(boxes_at(boxes, p + seq![last]) =~= boxes_at(boxes, p) + seq![boxes.last()]);
        } else {
            assert(page_indices(boxes, page) =~= p);
            assert(page_boxes(boxes, page) =~= page_boxes(d, page));
        }
    }
}

/// Boxes of other pages change nothing on a page: two exams whose boxes on
/// `page` are the same, in the same order, read the same boxes on that
/// page, in the same order, however their boxes of other pages are added,
/// removed or changed.
pub proof fn law_other_pages_irrelevant(boxes1: Seq<BoxSpec>, boxes2: Seq<BoxSpec>, page: u8)
    requires
        boxes1.len() <= usize::MAX,
        boxes2.len() <= usize::MAX,
        page_boxes(boxes1, page) == page_boxes(boxes2, page),
    ensures
        boxes_at(boxes1, page_indices(boxes1, page)) == boxes_at(boxes2, page_indices(boxes2, page)),
        page_indices(boxes1, page).len() == page_indices(boxes2, page).len(),
{
    law_boxes_read_are_page_boxes(boxes1, page);
    law_boxes_read_are_page_boxes(boxes2, page);
    assert(boxes_at(boxes1, page_indices(boxes1, page)).len() == page_indices(boxes1, page).len());
    assert(boxes_at(boxes2, page_indices(boxes2, page)).len() == page_indices(boxes2, page).len());
}

/// When every box on a page is binary, one trace row is set up for each box
/// read on that page.
pub proof fn law_rows_match_boxes(boxes: Seq<BoxSpec>, page: u8)
    requires
        page_all_binary(boxes, page),
    ensures
        binary_count(boxes, page) == page_indices(boxes, page).len(),
    decreases boxes.len(),
{
    if boxes.len() > 0 {
        let d = boxes.drop_last();
        assert forall|i: int| 0 <= i < d.len() && d[i].page == page implies d[i].kind == Kind::Binary by {
            assert(d[i] == boxes[i]);
        }
        law_rows_match_boxes(d, page);
        assert(boxes.last() == boxes[boxes.len() - 1]);
    }
}

/// Counts the binary boxes that lie on `page`: one trace row is drawn for
/// each of them.
pub fn count_binary_on_page(boxes: &Vec<BoxSpec>, page: u8) -> (r: usize)
    ensures
        r == binary_count(boxes@, page),
{
    let mut r: usize = 0;
    let n = boxes.len();
    for i in 0..n
        invariant
            n == boxes@.len(),
            r == binary_count(boxes@.take(i as int), page),
    {
        proof {
            assert(boxes@.take(i + 1).drop_last() =~= boxes@.take(i as int));
            lemma_binary_count_bound(boxes@.take(i as int), page);
        }
        let b = boxes[i];
        if b.page == page && b.kind == Kind::Binary {
            r = r + 1;
        }
    }
    proof {
        assert(boxes@.take(n as int) =~= boxes@);
    }
    r
}

/// The first box on `page` the scanner cannot read, if any.
pub fn first_unsupported_on_page(boxes: &Vec<BoxSpec>, page: u8) -> (r: Option<usize>)
    ensures
        r is None <==> page_all_binary(boxes@, page),
        r matches Some(i) ==> {
            &&& i < boxes@.len()
            &&& boxes@[i as int].page == page
            &&& boxes@[i as int].kind != Kind::Binary
            &&& page_all_binary(boxes@.take(i as int), page)
        },
{
    let n = boxes.len();
    for i in 0..n
        invariant
            n == boxes@.len(),
            page_all_binary(boxes@.take(i as int), page),
    {
        let b = boxes[i];
        if b.page == page && b.kind != Kind::Binary {
            return Some(i);
        }
        proof {
            let t = boxes@.take(i + 1);
            let u = boxes@.take(i as int);
            assert forall|j: int| 0 <= j < t.len() && #[trigger] t[j].page == page implies t[j].kind
                == Kind::Binary by {
                if j < i {
                    assert(u[j] == t[j]);
                }
            }
        }
    }
    proof {
        assert(boxes@.take(n as int) =~= boxes@);
    }
    None
}

/// The positions, in order, of the boxes to read on `page`: exactly the
/// boxes that lie on it.
pub fn boxes_on_page(boxes: &Vec<BoxSpec>, page: u8) -> (r: Vec<usize>)
    requires
        page_all_binary(boxes@, page),
    ensures
        r@ == page_indices(boxes@, page),
{
    let mut r: Vec<usize> = Vec::new();
    let n = boxes.len();
    for i in 0..n
        invariant
            n == boxes@.len(),
            r@ == page_indices(boxes@.take(i as int), page),
    {
        proof {
            assert(boxes@.take(i + 1).drop_last() =~= boxes@.take(i as int));
        }
        if boxes[i].page == page {
            r.push(i);
        }
        proof {
            let t = boxes@.take(i + 1);
            assert(t.last() == boxes@[i as int]);
            assert(t.len() - 1 == i);
            assert(r@ =~= page_indices(t, page));
        }
    }
    proof {
        assert(boxes@.take(n as int) =~= boxes@);
    }
    r
}

} // verus!
