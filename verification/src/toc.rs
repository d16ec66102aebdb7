//! Header records collected during the pass and the nested table of contents
//! built from them once the event stream is exhausted.

use vstd::prelude::*;

verus! {

/// A finalized header gathered during the pass: its nesting level, allocated
/// identifier, title text and full permalink.
pub struct TempHeader {
    pub level: u8,
    pub id: String,
    pub title: String,
    pub permalink: String,
}

/// The mathematical value of a `TempHeader`.
#[verifier::ext_equal]
pub struct TempHeaderV {
    pub level: u8,
    pub id: Seq<char>,
    pub title: Seq<char>,
    pub permalink: Seq<char>,
}

impl View for TempHeader {
    type V = TempHeaderV;

    open spec fn view(&self) -> TempHeaderV {
        TempHeaderV {
            level: self.level,
            id: self.id@,
            title: self.title@,
            permalink: self.permalink@,
        }
    }
}

impl DeepView for TempHeader {
    type V = TempHeaderV;

    open spec fn deep_view(&self) -> TempHeaderV {
        self.view()
    }
}

/// One node of the table of contents: a header and the headers nested under it.
pub struct Header {
    pub level: u8,
    pub id: String,
    pub permalink: String,
    pub title: String,
    pub children: Vec<Header>,
}

/// The first position `>= i` whose header does not nest under the first one,
/// i.e. whose level is at most `hs[0].level`; the length when none is.
pub open spec fn sibling_split(hs: Seq<TempHeaderV>, i: int) -> int
    decreases hs.len() - i,
{
    if i < 1 || i >= hs.len() {
        hs.len() as int
    } else if hs[i].level <= hs[0].level {
        i
    } else {
        sibling_split(hs, i + 1)
    }
}

pub open spec fn node_matches(h: TempHeaderV, r: &Header) -> bool {
    r.level == h.level && r.id@ == h.id && r.title@ == h.title && r.permalink@ == h.permalink
}

/// `r` is the table of contents of the flat header sequence `hs`: consecutive
/// headers of deeper level are grouped under the header they follow.
pub open spec fn toc_matches(hs: Seq<TempHeaderV>, r: Seq<Header>) -> bool
    decreases hs.len(),
{
    if hs.len() == 0 {
        r.len() == 0
    } else {
        let j = sibling_split(hs, 1);
        &&& 1 <= j <= hs.len()
        &&& r.len() >= 1
        &&& node_matches(hs[0], &r[0])
        &&& toc_matches(hs.subrange(1, j), r[0].children@)
        &&& toc_matches(hs.subrange(j, hs.len() as int), r.subrange(1, r.len() as int))
    }
}

proof fn lemma_split_val(hs: Seq<TempHeaderV>, i: int, j: int)
    requires
        1 <= i <= j <= hs.len(),
        forall|m: int| i <= m < j ==> (#[trigger] hs[m]).level > hs[0].level,
        j == hs.len() || hs[j].level <= hs[0].level,
    ensures
        sibling_split(hs, i) == j,
    decreases j - i,
{
    if i < j {
        lemma_split_val(hs, i + 1, j);
    }
}

fn toc_range(hs: &Vec<TempHeader>, start: usize, end: usize) -> (r: Vec<Header>)
    requires
        start <= end <= hs@.len(),
    ensures
        toc_matches(hs.deep_view().subrange(start as int, end as int), r@),
    decreases end - start,
{
    let ghost sub = hs.deep_view().subrange(start as int, end as int);
    if start >= end {
        let r: Vec<Header> = Vec::new();
        return r;
    }
    let lvl = hs[start].level;
    let mut j: usize = start + 1;
    while j < end && hs[j].level > lvl
        invariant
            start + 1 <= j <= end <= hs@.len(),
            lvl == hs.deep_view()[start as int].level,
            forall|m: int| start < m < j ==> (#[trigger] hs.deep_view()[m]).level > lvl,
        decreases end - j,
    {
        j += 1;
    }
    proof {
        assert(forall|m: int| 1 <= m < j - start ==> #[trigger] sub[m] == hs.deep_view()[start + m]);
        assert(j == end || sub[j - start].level <= sub[0].level);
        lemma_split_val(sub, 1, j - start);
    }
    let children = toc_range(hs, start + 1, j);
    let mut rest = toc_range(hs, j, end);
    let node = Header {
        level: lvl,
        id: hs[start].id.clone(),
        permalink: hs[start].permalink.clone(),
        title: hs[start].title.clone(),
        children,
    };
    let ghost rest_v = rest@;
    let mut out: Vec<Header> = Vec::new();
    out.push(node);
    out.append(&mut rest);
    proof {
        assert(node_matches(sub[0], &out@[0]));
        assert(sub.subrange(1, j - start) =~= hs.deep_view().subrange(start + 1, j as int));
        assert(sub.subrange(j - start, sub.len() as int) =~= hs.deep_view().subrange(
            j as int,
            end as int,
        ));
        assert(out@.subrange(1, out@.len() as int) =~= rest_v);
        assert(toc_matches(sub, out@));
    }
    out
}

/// Builds the nested table of contents from the flat, in-order header records.
pub fn make_table_of_contents(hs: &Vec<TempHeader>) -> (r: Vec<Header>)
    ensures
        toc_matches(hs.deep_view(), r@),
{
    let n = hs.len();
    let r = toc_range(hs, 0, n);
    proof {
        assert(hs.deep_view().subrange(0, hs.deep_view().len() as int) =~= hs.deep_view());
    }
    r
}

} // verus!
