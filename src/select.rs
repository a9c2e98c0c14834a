//! Resolution of a listing (and an optional handle) into the files to
//! download, and the choices offered when the operator must pick.

use vstd::prelude::*;
use crate::node::{NodeWrapper, RemoteNode};

verus! {

/// A remote listing: the full traversal, and a distinguished subset of
/// root entries that may overlap with it.
pub struct NodeListing {
    pub nodes: Vec<RemoteNode>,
    pub roots: Vec<RemoteNode>,
}

/// Some entry of `s` has handle `h`.
pub open spec fn has_handle(s: Seq<RemoteNode>, h: Seq<char>) -> bool {
    exists|i: int| 0 <= i < s.len() && s[i].handle@ == h
}

/// `i` is the first position of an entry of `s` with handle `h`.
pub open spec fn first_with_handle(s: Seq<RemoteNode>, h: Seq<char>, i: int) -> bool {
    &&& 0 <= i < s.len()
    &&& s[i].handle@ == h
    &&& forall|k: int| 0 <= k < i ==> s[k].handle@ != h
}

/// The file entries of `s` appended to `acc`, in order, each one skipped
/// when an entry with its handle is already there.
pub open spec fn dedup_files(acc: Seq<RemoteNode>, s: Seq<RemoteNode>) -> Seq<RemoteNode>
    decreases s.len(),
{
    if s.len() == 0 {
        acc
    } else {
        let prev = dedup_files(acc, s.drop_last());
        let x = s.last();
        if x.is_file && !has_handle(prev, x.handle@) {
            prev.push(x)
        } else {
            prev
        }
    }
}

/// No two entries of `s` share a handle.
pub open spec fn handles_unique(s: Seq<RemoteNode>) -> bool {
    forall|i: int, j: int|
        0 <= i < s.len() && 0 <= j < s.len() && i != j ==> s[i].handle@ != s[j].handle@
}

/// The choices offered for a candidate set: each candidate, then the choice
/// of every file.
pub open spec fn choices_of(c: Seq<RemoteNode>) -> Seq<NodeWrapper> {
    c.map_values(|n: RemoteNode| NodeWrapper::Specific(n)).push(NodeWrapper::All)
}

/// The entries behind the specific choices of `s`, in order.
pub open spec fn specifics_of(s: Seq<NodeWrapper>) -> Seq<RemoteNode>
    decreases s.len(),
{
    if s.len() == 0 {
        Seq::empty()
    } else {
        let prev = specifics_of(s.drop_last());
        match s.last() {
            NodeWrapper::Specific(n) => prev.push(n),
            NodeWrapper::All => prev,
        }
    }
}

/// Deduplication over a concatenation proceeds part by part.
pub proof fn lemma_dedup_concat(acc: Seq<RemoteNode>, s1: Seq<RemoteNode>, s2: Seq<RemoteNode>)
    ensures
        dedup_files(acc, s1 + s2) == dedup_files(dedup_files(acc, s1), s2),
    decreases s2.len(),
{
    if s2.len() == 0 {
        assert(s1 + s2 =~= s1);
    } else {
        assert((s1 + s2).drop_last() =~= s1 + s2.drop_last());
        assert((s1 + s2).last() == s2.last());
        lemma_dedup_concat(acc, s1, s2.drop_last());
    }
}

impl NodeListing {
    /// Every entry: the full traversal followed by the roots.
    pub open spec fn entries(&self) -> Seq<RemoteNode> {
        self.nodes@ + self.roots@
    }

    /// The candidate set: the file entries, deduplicated by handle, in
    /// order of first appearance.
    pub open spec fn candidate_set(&self) -> Seq<RemoteNode> {
        dedup_files(Seq::empty(), self.entries())
    }

    /// The first entry with the given handle.
    pub fn get_node_by_handle(&self, handle: &String) -> (r: Option<RemoteNode>)
        ensures
            r is None <==> !has_handle(self.entries(), handle@),
            r matches Some(n) ==> exists|i: int|
                first_with_handle(self.entries(), handle@, i) && n == self.entries()[i],
    {
        let mut i: usize = 0;
        while i < self.nodes.len()
            invariant
                i <= self.nodes@.len(),
                forall|k: int| 0 <= k < i ==> self.nodes@[k].handle@ != handle@,
            decreases self.nodes@.len() - i,
        {
            if self.nodes[i].handle == *handle {
                assert(self.entries()[i as int] == self.nodes@[i as int]);
                return Some(self.nodes[i].duplicate());
            }
            i = i + 1;
        }
        let mut j: usize = 0;
        while j < self.roots.len()
            invariant
                j <= self.roots@.len(),
                forall|k: int| 0 <= k < self.nodes@.len() ==> self.nodes@[k].handle@ != handle@,
                forall|k: int| 0 <= k < j ==> self.roots@[k].handle@ != handle@,
            decreases self.roots@.len() - j,
        {
            if self.roots[j].handle == *handle {
                let ghost at = self.nodes@.len() + j;
                assert(self.entries()[at] == self.roots@[j as int]);
                assert forall|k: int| 0 <= k < at implies self.entries()[k].handle@ != handle@ by {
                    if k >= self.nodes@.len() {
                        assert(self.entries()[k] == self.roots@[k - self.nodes@.len()]);
                    }
                }
                return Some(self.roots[j].duplicate());
            }
            j = j + 1;
        }
        assert forall|k: int| 0 <= k < self.entries().len() implies self.entries()[k].handle@
            != handle@ by {
            if k >= self.nodes@.len() {
                assert(self.entries()[k] == self.roots@[k - self.nodes@.len()]);
            }
        }
        None
    }
}


/// The candidate set holds every handle of its file entries, and each once.
proof fn lemma_dedup_unique(acc: Seq<RemoteNode>, s: Seq<RemoteNode>)
    requires
        handles_unique(acc),
    ensures
        handles_unique(dedup_files(acc, s)),
        forall|k: int|
            0 <= k < s.len() && #[trigger] s[k].is_file ==> has_handle(
                dedup_files(acc, s),
                s[k].handle@,
            ),
    decreases s.len(),
{
    if s.len() > 0 {
        let prev = dedup_files(acc, s.drop_last());
        lemma_dedup_unique(acc, s.drop_last());
        let res = dedup_files(acc, s);
        let x = s.last();
        assert forall|k: int| 0 <= k < s.len() && #[trigger] s[k].is_file implies has_handle(
            res,
            s[k].handle@,
        ) by {
            if k < s.len() - 1 {
                assert(s.drop_last()[k] == s[k]);
                let w = choose|w: int| 0 <= w < prev.len() && prev[w].handle@ == s[k].handle@;
                assert(res[w] == prev[w]);
            } else if !has_handle(prev, x.handle@) {
                assert(res[prev.len() as int] == x);
            } else {
                let w = choose|w: int| 0 <= w < prev.len() && prev[w].handle@ == x.handle@;
                assert(res[w] == prev[w]);
            }
        }
    }
}

/// The entries behind the specific choices of a mapped candidate sequence
/// are the candidates themselves.
proof fn lemma_specifics_of_map(c: Seq<RemoteNode>)
    ensures
        specifics_of(c.map_values(|n: RemoteNode| NodeWrapper::Specific(n))) == c,
    decreases c.len(),
{
    let m = c.map_values(|n: RemoteNode| NodeWrapper::Specific(n));
    if c.len() == 0 {
        assert(c =~= Seq::empty());
    } else {
        assert(m.drop_last() =~= c.drop_last().map_values(|n: RemoteNode| NodeWrapper::Specific(n)));
        lemma_specifics_of_map(c.drop_last());
        assert(c.drop_last().push(c.last()) =~= c);
    }
}

/// A handle that names a file both in the full traversal and among the
/// roots appears exactly once in the candidate set.
pub proof fn lemma_candidate_handle_once(listing: &NodeListing, h: Seq<char>)
    requires
        exists|i: int|
            0 <= i < listing.nodes@.len() && listing.nodes@[i].is_file && listing.nodes@[i].handle@
                == h,
        exists|j: int|
            0 <= j < listing.roots@.len() && listing.roots@[j].is_file && listing.roots@[j].handle@
                == h,
    ensures
        exists|i: int|
            0 <= i < listing.candidate_set().len() && listing.candidate_set()[i].handle@ == h
                && forall|j: int|
                0 <= j < listing.candidate_set().len() && listing.candidate_set()[j].handle@ == h
                    ==> j == i,
{
    let e = listing.entries();
    let c = listing.candidate_set();
    lemma_dedup_unique(Seq::empty(), e);
    let i = choose|i: int|
        0 <= i < listing.nodes@.len() && listing.nodes@[i].is_file && listing.nodes@[i].handle@
            == h;
    assert(e[i] == listing.nodes@[i]);
    assert(e[i].is_file);
    let w = choose|w: int| 0 <= w < c.len() && c[w].handle@ == h;
    assert(forall|j: int| 0 <= j < c.len() && c[j].handle@ == h ==> j == w);
}

/// Choosing every file yields each candidate, in order, and nothing else.
pub proof fn lemma_all_choice_selects_candidates(c: Seq<RemoteNode>)
    ensures
        choices_of(c).last() is All,
        specifics_of(choices_of(c)) == c,
{
    let m = c.map_values(|n: RemoteNode| NodeWrapper::Specific(n));
    assert(choices_of(c).drop_last() =~= m);
    lemma_specifics_of_map(c);
}

/// Whether some entry of `acc` has handle `h`.
fn contains_handle(acc: &Vec<RemoteNode>, h: &String) -> (r: bool)
    ensures
        r == has_handle(acc@, h@),
{
    let mut i: usize = 0;
    while i < acc.len()
        invariant
            i <= acc@.len(),
            forall|k: int| 0 <= k < i ==> acc@[k].handle@ != h@,
        decreases acc@.len() - i,
    {
        if acc[i].handle == *h {
            return true;
        }
        i = i + 1;
    }
    false
}

/// Appends to `acc` the file entries of `v` whose handle it lacks.
fn push_files(acc: &mut Vec<RemoteNode>, v: &Vec<RemoteNode>)
    ensures
        final(acc)@ == dedup_files(old(acc)@, v@),
{
    let ghost start = acc@;
    let mut i: usize = 0;
    while i < v.len()
        invariant
            i <= v@.len(),
            acc@ == dedup_files(start, v@.subrange(0, i as int)),
        decreases v@.len() - i,
    {
        let ghost pre = v@.subrange(0, i as int + 1);
        assert(pre.drop_last() =~= v@.subrange(0, i as int));
        assert(pre.last() == v@[i as int]);
        if v[i].is_file && !contains_handle(acc, &v[i].handle) {
            acc.push(v[i].duplicate());
        }
        i = i + 1;
    }
    assert(v@.subrange(0, v@.len() as int) =~= v@);
}

impl NodeListing {
    /// The candidate set of this listing.
    pub fn candidates(&self) -> (r: Vec<RemoteNode>)
        ensures
            r@ == self.candidate_set(),
    {
        let mut acc: Vec<RemoteNode> = Vec::new();
        push_files(&mut acc, &self.nodes);
        push_files(&mut acc, &self.roots);
        proof {
            lemma_dedup_concat(Seq::empty(), self.nodes@, self.roots@);
        }
        acc
    }
}

/// What resolution leads to: the files themselves, or a choice to put to
/// the operator.
pub enum Resolution {
    Selected(Vec<RemoteNode>),
    Prompt(Vec<NodeWrapper>),
}

/// Why a listing resolves to no file.
pub enum ResolveError {
    /// The handle given explicitly names no entry of the listing.
    HandleNotFound,
    /// The listing holds no file entry.
    NoFiles,
}

/// Resolves a listing, given the handle recovered from the link, if any.
///
/// A handle selects the first entry that bears it. Without one, a single
/// candidate is selected at once, and two or more are offered, followed by
/// the choice of every file.
pub fn resolve(listing: &NodeListing, handle: Option<String>) -> (r: Result<
    Resolution,
    ResolveError,
>)
    ensures
        handle matches Some(h) ==> {
            &&& r is Err <==> !has_handle(listing.entries(), h@)
            &&& r matches Err(e) ==> e is HandleNotFound
            &&& r matches Ok(res) ==> (res matches Resolution::Selected(v) && v@.len() == 1
                && exists|i: int|
                first_with_handle(listing.entries(), h@, i) && v@[0] == listing.entries()[i])
        },
        handle is None ==> {
            &&& r is Err <==> listing.candidate_set().len() == 0
            &&& r matches Err(e) ==> e is NoFiles
            &&& listing.candidate_set().len() == 1 ==> (r matches Ok(Resolution::Selected(v))
                && v@ == listing.candidate_set())
            &&& listing.candidate_set().len() >= 2 ==> (r matches Ok(Resolution::Prompt(o))
                && o@ == choices_of(listing.candidate_set()))
        },
{
    match handle {
        Some(h) => match listing.get_node_by_handle(&h) {
            Some(n) => Ok(Resolution::Selected(vec![n])),
            None => Err(ResolveError::HandleNotFound),
        },
        None => {
            let c = listing.candidates();
            if c.len() == 0 {
                Err(ResolveError::NoFiles)
            } else if c.len() == 1 {
                Ok(Resolution::Selected(c))
            } else {
                let mut options: Vec<NodeWrapper> = Vec::new();
                let mut i: usize = 0;
                while i < c.len()
                    invariant
                        i <= c@.len(),
                        options@ == c@.subrange(0, i as int).map_values(
                            |n: RemoteNode| NodeWrapper::Specific(n),
                        ),
                    decreases c@.len() - i,
                {
                    options.push(NodeWrapper::new(c[i].duplicate()));
                    proof {
                        assert(c@.subrange(0, i as int + 1) =~= c@.subrange(0, i as int).push(
                            c@[i as int],
                        ));
                    }
                    i = i + 1;
                    assert(options@ =~= c@.subrange(0, i as int).map_values(
                        |n: RemoteNode| NodeWrapper::Specific(n),
                    ));
                }
                assert(c@.subrange(0, c@.len() as int) =~= c@);
                options.push(NodeWrapper::new_empty());
                Ok(Resolution::Prompt(options))
            }
        },
    }
}

/// The files that the choice at `index` stands for: its entry, or every
/// entry offered when it is the choice of every file.
pub fn chosen_files(options: &Vec<NodeWrapper>, index: usize) -> (r: Vec<RemoteNode>)
    requires
        index < options@.len(),
    ensures
        options@[index as int] matches NodeWrapper::Specific(n) ==> r@ == seq![n],
        options@[index as int] is All ==> r@ == specifics_of(options@),
{
    match &options[index] {
        NodeWrapper::Specific(n) => {
            let r = vec![n.duplicate()];
            assert(r@ =~= seq![*n]);
            r
        },
        NodeWrapper::All => {
            let mut r: Vec<RemoteNode> = Vec::new();
            let mut i: usize = 0;
            while i < options.len()
                invariant
                    i <= options@.len(),
                    r@ == specifics_of(options@.subrange(0, i as int)),
                decreases options@.len() - i,
            {
                let ghost pre = options@.subrange(0, i as int + 1);
                assert(pre.drop_last() =~= options@.subrange(0, i as int));
                match &options[i] {
                    NodeWrapper::Specific(n) => r.push(n.duplicate()),
                    NodeWrapper::All => {},
                }
                i = i + 1;
            }
            assert(options@.subrange(0, options@.len() as int) =~= options@);
            r
        },
    }
}

} // verus!
