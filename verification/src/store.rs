//! The chain state store: an append-only arena of applied-block references
//! keyed by header hash, rooted at the genesis anchor, together with the
//! pre-check classification, the post-check validation rules, and the apply
//! operation that extends the arena.

use vstd::prelude::*;

verus! {

use crate::chain::{date_lt, date_strictly_before, Block, BlockDate, Header, HeaderHash, Ref};

/// The outcome of classifying an incoming header against stored state.
/// Callers must handle all three cases; only `HeaderWithCache` may proceed to
/// full validation.
pub enum PreCheckedHeader {
    /// The header's hash already exists in storage.
    AlreadyPresent { header: Header },
    /// The header's declared parent hash is not found in storage.
    MissingParent { header: Header },
    /// The header together with the resolved reference to its parent's
    /// applied-block record: the only case eligible for post-checking.
    HeaderWithCache { header: Header, parent_ref: Ref },
}

/// A header that has passed full validation against its resolved parent and
/// carries enough information to be applied.
pub struct PostCheckedHeader {
    pub header: Header,
    pub parent_ref: Ref,
}

/// A validation fault reported by the store's rule checks.
#[derive(Clone, Copy, PartialEq, Eq, Debug, Structural)]
pub enum StoreError {
    /// The header's date does not strictly increase over its parent's.
    NonIncreasingDate,
    /// The header's declared parent is not the parent reference it was
    /// validated against.
    ParentMismatch,
}

/// Some reference in `s` carries the hash `h`.
pub open spec fn contains_hash(s: Seq<Ref>, h: HeaderHash) -> bool {
    exists|i: int| 0 <= i < s.len() && s[i].hash == h
}

/// The position of the reference carrying `h`; meaningful only when
/// `contains_hash(s, h)` holds and hashes in `s` are distinct.
pub open spec fn index_of_hash(s: Seq<Ref>, h: HeaderHash) -> int {
    choose|i: int| 0 <= i < s.len() && s[i].hash == h
}

/// The reference in `s` carrying the hash `h`.
pub open spec fn lookup(s: Seq<Ref>, h: HeaderHash) -> Ref {
    s[index_of_hash(s, h)]
}

/// The exact reference `r` is present in `s`.
pub open spec fn has_ref(s: Seq<Ref>, r: Ref) -> bool {
    exists|i: int| 0 <= i < s.len() && s[i] == r
}

/// The reference at position `i` of `s` is linked to a parent reference at an
/// earlier position, with the chain length and the chronology that linkage
/// demands.
pub open spec fn linked_at(s: Seq<Ref>, i: int) -> bool {
    exists|j: int|
        0 <= j < i && s[j].hash == s[i].parent && s[i].chain_length == s[j].chain_length + 1
            && date_lt(s[j].date, s[i].date)
}

/// Well-formedness of an arena of applied-block references:
/// the genesis reference sits at position 0 with chain length 0 and its own
/// hash as parent; hashes are distinct; every later reference is linked to an
/// earlier one; and chain lengths are bounded by position, which keeps them
/// within machine range.
pub open spec fn store_wf(s: Seq<Ref>) -> bool {
    &&& 1 <= s.len()
    &&& s[0].chain_length == 0
    &&& s[0].parent == s[0].hash
    &&& (forall|i: int, j: int| 0 <= i < j < s.len() ==> s[i].hash != s[j].hash)
    &&& (forall|i: int| 1 <= i < s.len() ==> linked_at(s, i))
    &&& (forall|i: int| 0 <= i < s.len() ==> s[i].chain_length <= i)
}

/// In a store with distinct hashes, looking up the hash of a reference known
/// to be present yields exactly that reference; in general, a successful
/// lookup yields a present reference carrying the looked-up hash.
pub proof fn lemma_lookup(s: Seq<Ref>, h: HeaderHash)
    requires
        store_wf(s),
        contains_hash(s, h),
    ensures
        lookup(s, h).hash == h,
        has_ref(s, lookup(s, h)),
        forall|r: Ref| has_ref(s, r) && r.hash == h ==> lookup(s, h) == r,
{
    let i = index_of_hash(s, h);
    assert(0 <= i < s.len() && s[i].hash == h);
    assert forall|r: Ref| has_ref(s, r) && r.hash == h implies lookup(s, h) == r by {
        let j = choose|j: int| 0 <= j < s.len() && s[j] == r;
        assert(s[j].hash == h);
        assert(i == j);
    }
}

/// Appending a freshly hashed, properly linked and dated reference preserves
/// well-formedness.
pub proof fn lemma_push_wf(s: Seq<Ref>, parent: Ref, h: Header)
    requires
        store_wf(s),
        !contains_hash(s, h.hash),
        has_ref(s, parent),
        parent.hash == h.parent,
        date_lt(parent.date, h.date),
        parent.chain_length < usize::MAX,
    ensures
        store_wf(s.push(child_ref(parent, h))),
{
    let r = child_ref(parent, h);
    let t = s.push(r);
    let j = choose|j: int| 0 <= j < s.len() && s[j] == parent;
    assert(t[j] == parent);
    assert(parent.chain_length <= j);
    assert forall|i: int, k: int| 0 <= i < k < t.len() implies t[i].hash != t[k].hash by {
        if k < s.len() {
            assert(t[i] == s[i] && t[k] == s[k]);
        } else {
            assert(t[i] == s[i]);
            assert(!(s[i].hash == r.hash)) by {
                if s[i].hash == r.hash {
                    assert(contains_hash(s, h.hash));
                }
            }
        }
    }
    assert forall|i: int| 1 <= i < t.len() implies linked_at(t, i) by {
        if i < s.len() {
            assert(linked_at(s, i));
            let k = choose|k: int|
                0 <= k < i && s[k].hash == s[i].parent && s[i].chain_length == s[k].chain_length
                    + 1 && date_lt(s[k].date, s[i].date);
            assert(t[k] == s[k] && t[i] == s[i]);
        } else {
            assert(t[i] == r);
            assert(0 <= j < i && t[j].hash == t[i].parent && t[i].chain_length == t[j].chain_length
                + 1 && date_lt(t[j].date, t[i].date));
        }
    }
    assert forall|i: int| 0 <= i < t.len() implies t[i].chain_length <= i by {
        if i < s.len() {
            assert(t[i] == s[i]);
        } else {
            assert(t[i] == r);
        }
    }
}

/// The position, earlier than `i`, of the reference that carries the parent
/// hash of the reference at `i`; meaningful when such a position exists.
pub open spec fn parent_index(s: Seq<Ref>, i: int) -> int {
    choose|j: int| 0 <= j < i && s[j].hash == s[i].parent
}

/// The lineage of the reference at position `i`: either it is the genesis
/// anchor itself, or its parent sits at an earlier position whose own
/// lineage reaches the anchor.
pub open spec fn reaches_genesis(s: Seq<Ref>, i: int) -> bool
    decreases i,
{
    if i <= 0 {
        i == 0
    } else {
        let j = parent_index(s, i);
        0 <= j < i && s[j].hash == s[i].parent && reaches_genesis(s, j)
    }
}

/// In a well-formed arena every reference's lineage is a connected path of
/// parent links back to the genesis anchor at position 0: no reference is
/// ever created whose parent cannot be resolved.
pub proof fn lemma_lineage_reaches_genesis(s: Seq<Ref>, i: int)
    requires
        store_wf(s),
        0 <= i < s.len(),
    ensures
        reaches_genesis(s, i),
    decreases i,
{
    if i > 0 {
        assert(linked_at(s, i));
        let w = choose|w: int|
            0 <= w < i && s[w].hash == s[i].parent && s[i].chain_length == s[w].chain_length + 1
                && date_lt(s[w].date, s[i].date);
        assert(exists|j: int| 0 <= j < i && s[j].hash == s[i].parent);
        let j = parent_index(s, i);
        assert(0 <= j < i && s[j].hash == s[i].parent);
        lemma_lineage_reaches_genesis(s, j);
    }
}

/// The reference that applying a block with header `h` on top of `parent`
/// produces.
pub open spec fn child_ref(parent: Ref, h: Header) -> Ref {
    Ref {
        hash: h.hash,
        parent: h.parent,
        date: h.date,
        chain_length: (parent.chain_length + 1) as usize,
    }
}

/// The classification that pre-checking a header against the arena `s` must
/// return.
pub open spec fn pre_check_spec(s: Seq<Ref>, header: Header) -> PreCheckedHeader {
    if contains_hash(s, header.hash) {
        PreCheckedHeader::AlreadyPresent { header }
    } else if !contains_hash(s, header.parent) {
        PreCheckedHeader::MissingParent { header }
    } else {
        PreCheckedHeader::HeaderWithCache { header, parent_ref: lookup(s, header.parent) }
    }
}

/// The outcome that post-checking a header against a resolved parent
/// reference must return: the declared parent must be the resolved parent,
/// and the date must strictly increase over the parent's.
pub open spec fn post_check_spec(header: Header, parent_ref: Ref) -> Result<
    PostCheckedHeader,
    StoreError,
> {
    if header.parent != parent_ref.hash {
        Err(StoreError::ParentMismatch)
    } else if !date_lt(parent_ref.date, header.date) {
        Err(StoreError::NonIncreasingDate)
    } else {
        Ok(PostCheckedHeader { header, parent_ref })
    }
}

/// The chain state store: owns the arena of applied-block references and the
/// genesis anchor, and is the only component that ever constructs a `Ref`.
pub struct ChainStore {
    refs: Vec<Ref>,
}

impl View for ChainStore {
    type V = Seq<Ref>;

    closed spec fn view(&self) -> Seq<Ref> {
        self.refs@
    }
}

impl ChainStore {
    /// The store's internal invariant: its arena is well-formed.
    pub open spec fn wf(&self) -> bool {
        store_wf(self@)
    }

    /// The genesis anchor hash: the root every accepted chain traces back to.
    pub open spec fn block0_spec(&self) -> HeaderHash {
        self@[0].hash
    }

    /// Creates a store holding only the genesis reference, anchored at
    /// `block0` with the given date.
    pub fn new(block0: HeaderHash, date: BlockDate) -> (s: ChainStore)
        ensures
            s.wf(),
            s@ =~= seq![
                (Ref { hash: block0, parent: block0, date, chain_length: 0 }),
            ],
            s.block0_spec() == block0,
    {
        let genesis = Ref { hash: block0, parent: block0, date, chain_length: 0 };
        let mut refs: Vec<Ref> = Vec::new();
        refs.push(genesis);
        ChainStore { refs }
    }

    /// Returns the fixed genesis anchor hash. Side-effect-free.
    pub fn block0(&self) -> (h: HeaderHash)
        requires
            self.wf(),
        ensures
            h == self.block0_spec(),
    {
        self.refs[0].hash
    }

    /// Looks up the applied-block reference carrying `h`, if any.
    pub fn get_ref_by_hash(&self, h: HeaderHash) -> (r: Option<Ref>)
        requires
            self.wf(),
        ensures
            match r {
                Some(rf) => contains_hash(self@, h) && rf == lookup(self@, h),
                None => !contains_hash(self@, h),
            },
    {
        let n = self.refs.len();
        let mut i: usize = 0;
        while i < n
            invariant
                n == self@.len(),
                0 <= i <= n,
                self.wf(),
                forall|k: int| 0 <= k < i ==> self@[k].hash != h,
            decreases n - i,
        {
            if self.refs[i].hash.value == h.value {
                let found = self.refs[i];
                proof {
                    assert(contains_hash(self@, h));
                    lemma_lookup(self@, h);
                    assert(has_ref(self@, found));
                }
                return Some(found);
            }
            i = i + 1;
        }
        None
    }

    /// Classifies `header` against the stored chain, per the pre-check
    /// specification. The flag allows the caller to accept a parent on any
    /// tracked branch; it is an opaque configuration option of the store and
    /// does not change the classification made here.
    pub fn pre_check_header(&self, header: Header, _allow_fork_from_any_branch: bool) -> (r:
        PreCheckedHeader)
        requires
            self.wf(),
        ensures
            r == pre_check_spec(self@, header),
    {
        match self.get_ref_by_hash(header.hash) {
            Some(_) => PreCheckedHeader::AlreadyPresent { header },
            None => match self.get_ref_by_hash(header.parent) {
                None => PreCheckedHeader::MissingParent { header },
                Some(parent_ref) => PreCheckedHeader::HeaderWithCache { header, parent_ref },
            },
        }
    }

    /// Performs full rule validation of `header` against the resolved
    /// `parent_ref`: parent linkage and strictly increasing chronology.
    pub fn post_check_header(&self, header: Header, parent_ref: Ref) -> (r: Result<
        PostCheckedHeader,
        StoreError,
    >)
        requires
            self.wf(),
        ensures
            r matches Ok(p) ==> p.header == header && p.parent_ref == parent_ref,
            r == post_check_spec(header, parent_ref),
    {
        if header.parent.value != parent_ref.hash.value {
            Err(StoreError::ParentMismatch)
        } else if !date_strictly_before(parent_ref.date, header.date) {
            Err(StoreError::NonIncreasingDate)
        } else {
            Ok(PostCheckedHeader { header, parent_ref })
        }
    }

    /// Durably records the validated block and produces its applied-block
    /// reference, linked to the parent resolved during pre-checking. The
    /// caller guarantees — as the pre-check classification enforces — that
    /// the hash is new and the parent is present.
    pub fn apply_and_store_block(&mut self, post_checked: PostCheckedHeader, block: &Block) -> (r:
        Ref)
        requires
            old(self).wf(),
            block.header == post_checked.header,
            !contains_hash(old(self)@, post_checked.header.hash),
            contains_hash(old(self)@, post_checked.header.parent),
            post_checked.parent_ref == lookup(old(self)@, post_checked.header.parent),
            date_lt(post_checked.parent_ref.date, post_checked.header.date),
        ensures
            final(self).wf(),
            r == child_ref(post_checked.parent_ref, post_checked.header),
            final(self)@ == old(self)@.push(r),
            final(self).block0_spec() == old(self).block0_spec(),
    {
        let n = self.refs.len();
        proof {
            lemma_lookup(self@, post_checked.header.parent);
            let j = index_of_hash(self@, post_checked.header.parent);
            assert(post_checked.parent_ref.chain_length <= j < n <= usize::MAX);
        }
        let r = Ref {
            hash: post_checked.header.hash,
            parent: post_checked.header.parent,
            date: post_checked.header.date,
            chain_length: post_checked.parent_ref.chain_length + 1,
        };
        proof {
            lemma_push_wf(self@, post_checked.parent_ref, post_checked.header);
        }
        self.refs.push(r);
        r
    }
}

} // verus!
