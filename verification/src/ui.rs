//! Common UI components: severity-ranked notes and per-repository summaries.
use core::cmp::Ordering;
use vstd::prelude::*;
use vstd::std_specs::cmp::PartialOrdSpecImpl;
use vstd::string::*;
use crate::app::Error;
use crate::text::{begins_with, has_prefix};
use crate::order::{
    is_stable_order, key_views, lemma_stable_order_unique, stable_order, KeyView, SortKey,
};

verus! {

// ----- Kind -----------------------------------------------------------------
/// Generic indicator for "result" or "status", ordered from least to most
/// severe.
#[derive(Clone, Copy, Debug, PartialEq, Eq, Structural)]
pub enum Kind {
    /// Nothing notable.
    Neutral,
    /// Something good.
    Success,
    /// Bad but not really bad.
    Warning,
    /// Bad.
    Failure,
}

impl Kind {
    /// Position of the kind in the severity order.
    pub open spec fn rank(self) -> nat {
        match self {
            Kind::Neutral => 0,
            Kind::Success => 1,
            Kind::Warning => 2,
            Kind::Failure => 3,
        }
    }

    /// The more severe of two kinds.
    pub open spec fn worse(self, other: Kind) -> Kind {
        if other.rank() > self.rank() {
            other
        } else {
            self
        }
    }

    /// Returns the position of the kind in the severity order.
    pub fn severity(&self) -> (r: u8)
        ensures
            r == self.rank(),
    {
        match self {
            Kind::Neutral => 0,
            Kind::Success => 1,
            Kind::Warning => 2,
            Kind::Failure => 3,
        }
    }
}

impl PartialOrd for Kind {
    /// Compares two kinds by severity.
    fn partial_cmp(&self, other: &Kind) -> (r: Option<Ordering>) {
        let a = self.severity();
        let b = other.severity();
        if a < b {
            Some(Ordering::Less)
        } else if a == b {
            Some(Ordering::Equal)
        } else {
            Some(Ordering::Greater)
        }
    }
}

impl PartialOrdSpecImpl for Kind {
    open spec fn obeys_partial_cmp_spec() -> bool {
        true
    }

    open spec fn partial_cmp_spec(&self, other: &Kind) -> Option<Ordering> {
        if self.rank() < other.rank() {
            Some(Ordering::Less)
        } else if self.rank() == other.rank() {
            Some(Ordering::Equal)
        } else {
            Some(Ordering::Greater)
        }
    }
}

// ----- Note -----------------------------------------------------------------
/// Represents an item in a `Summary`.
pub struct Note {
    /// Group for the note, used during `Summary` sort.
    group: usize,
    /// `Kind` of note.
    kind: Kind,
    /// Message for the end user.
    message: String,
}

/// Mathematical value of a `Note`.
pub ghost struct NoteView {
    pub group: nat,
    pub kind: Kind,
    pub message: Seq<char>,
}

impl View for Note {
    type V = NoteView;

    closed spec fn view(&self) -> NoteView {
        NoteView { group: self.group as nat, kind: self.kind, message: self.message@ }
    }
}

impl Clone for Note {
    /// Copies the note.
    fn clone(&self) -> (r: Self)
        ensures
            r@ == self@,
    {
        Note { group: self.group, kind: self.kind, message: self.message.clone() }
    }
}

impl Note {
    /// Creates and returns a new `Note`.
    pub fn new(group: usize, kind: Kind, message: &str) -> (r: Self)
        ensures
            r@ == (NoteView { group: group as nat, kind: kind, message: message@ }),
    {
        Self { group: group, kind: kind, message: message.to_owned() }
    }

    /// Returns the group number for this note.
    pub fn group(&self) -> (r: usize)
        ensures
            r == self@.group,
    {
        self.group
    }

    /// Returns the kind for this note.
    pub fn kind(&self) -> (r: &Kind)
        ensures
            *r == self@.kind,
    {
        &self.kind
    }

    /// Returns the message for this note.
    pub fn message(&self) -> (r: &str)
        ensures
            r@ == self@.message,
    {
        self.message.as_str()
    }
}

/// The values of a list of notes.
pub open spec fn note_views(notes: Seq<Note>) -> Seq<NoteView> {
    notes.map_values(|n: Note| n@)
}

/// The most severe kind among `notes`; `Neutral` where there is none.
pub open spec fn worst(notes: Seq<NoteView>) -> Kind
    decreases notes.len(),
{
    if notes.len() == 0 {
        Kind::Neutral
    } else {
        worst(notes.drop_last()).worse(notes.last().kind)
    }
}

/// The worst kind is at least as severe as every note's kind, and it is the
/// kind of some note unless it is `Neutral`.
pub proof fn lemma_worst_is_maximum(notes: Seq<NoteView>)
    ensures
        forall|i: int| 0 <= i < notes.len() ==> (#[trigger] notes[i]).kind.rank() <= worst(notes).rank(),
        worst(notes) == Kind::Neutral || exists|i: int|
            0 <= i < notes.len() && (#[trigger] notes[i]).kind == worst(notes),
    decreases notes.len(),
{
    if notes.len() > 0 {
        let head = notes.drop_last();
        lemma_worst_is_maximum(head);
        assert forall|i: int| 0 <= i < notes.len() implies (#[trigger] notes[i]).kind.rank() <= worst(
            notes,
        ).rank() by {
            if i < head.len() {
                assert(notes[i] == head[i]);
            }
        }
        if worst(notes) != Kind::Neutral {
            if worst(notes) == notes.last().kind {
                assert(notes[notes.len() - 1].kind == worst(notes));
            } else {
                let i = choose|i: int| 0 <= i < head.len() && (#[trigger] head[i]).kind == worst(head);
                assert(notes[i] == head[i]);
            }
        }
    }
}

/// The worst kind of two lists of notes put together is the worse of their
/// worst kinds.
pub proof fn lemma_worst_of_merged(a: Seq<NoteView>, b: Seq<NoteView>)
    ensures
        worst(a + b) == worst(a).worse(worst(b)),
    decreases b.len(),
{
    if b.len() == 0 {
        assert(a + b =~= a);
    } else {
        assert((a + b).drop_last() =~= a + b.drop_last());
        assert((a + b).last() == b.last());
        lemma_worst_of_merged(a, b.drop_last());
    }
}

/// What the notes of a summary are ordered by when they are listed: the
/// group, then the message.
pub open spec fn note_keys(notes: Seq<NoteView>) -> Seq<KeyView> {
    notes.map_values(|n: NoteView| KeyView { group: n.group, first: n.message, second: Seq::empty() })
}

/// The notes in the order in which a summary lists them: sorted by group,
/// then by message, notes that agree in both in the order in which they were
/// pushed.
pub open spec fn listing(notes: Seq<NoteView>) -> Seq<NoteView> {
    let order = choose|order: Seq<usize>| is_stable_order(note_keys(notes), order);
    Seq::new(notes.len(), |k: int| notes[order[k] as int])
}

// ----- Summary --------------------------------------------------------------
/// Represents a summary of current status or the results of an
/// operation.
pub struct Summary {
    /// Vec of notes comprising the summary.
    notes: Vec<Note>,
}

impl View for Summary {
    type V = Seq<NoteView>;

    closed spec fn view(&self) -> Seq<NoteView> {
        note_views(self.notes@)
    }
}

impl Clone for Summary {
    /// Copies the summary with all its notes.
    fn clone(&self) -> (r: Self)
        ensures
            r@ == self@,
    {
        let mut r = Summary::new();
        r.push_summary(self);
        assert(Seq::<NoteView>::empty() + self@ =~= self@);
        r
    }
}

impl Summary {
    /// Creates and returns a new `Summary` instance.
    pub fn new() -> (r: Self)
        ensures
            r@ == Seq::<NoteView>::empty(),
    {
        let r = Self { notes: Vec::new() };
        assert(r@ =~= Seq::<NoteView>::empty());
        r
    }

    /// Adds a new `Note` to this summary. Takes ownership of the
    /// `note` instance.
    pub fn push_note(&mut self, note: Note)
        ensures
            final(self)@ == old(self)@.push(note@),
    {
        self.notes.push(note);
        assert(self@ =~= old(self)@.push(note@));
    }

    /// Adds the contents of `other` summary to this summary.
    ///
    /// Note that this copies the `Note` instances referenced by
    /// `other`.
    pub fn push_summary(&mut self, other: &Self)
        ensures
            final(self)@ == old(self)@ + other@,
    {
        let mut i: usize = 0;
        assert(self@ =~= old(self)@ + other@.take(0));
        while i < other.notes.len()
            invariant
                i <= other.notes.len(),
                self@ == old(self)@ + other@.take(i as int),
            decreases other.notes.len() - i,
        {
            let ghost before = self@;
            self.notes.push(other.notes[i].clone());
            assert(self@ =~= before.push(other@[i as int]));
            assert(other@.take(i + 1) =~= other@.take(i as int).push(other@[i as int]));
            i = i + 1;
        }
        assert(other@.take(i as int) =~= other@);
    }

    /// Returns a slice of the notes of this summary, in the order in which
    /// they were pushed.
    pub fn notes(&self) -> (r: &[Note])
        ensures
            note_views(r@) == self@,
    {
        self.notes.as_slice()
    }

    /// Returns an `Iter` for this summary, which yields notes in a
    /// stably-sorted order.
    ///
    /// See the documentation for `Iter` for more information.
    pub fn iter(&self) -> (r: Iter<'_>)
        ensures
            r.remaining() == listing(self@),
    {
        Iter::new(self)
    }

    /// Returns the "most severe" `Kind` of all the notes.
    pub fn kind(&self) -> (r: Kind)
        ensures
            r == worst(self@),
            forall|i: int| 0 <= i < self@.len() ==> (#[trigger] self@[i]).kind.rank() <= r.rank(),
            r == Kind::Neutral || exists|i: int| 0 <= i < self@.len() && (#[trigger] self@[i]).kind == r,
    {
        let mut rv = Kind::Neutral;
        let mut i: usize = 0;
        assert(self@.take(0) =~= Seq::<NoteView>::empty());
        while i < self.notes.len()
            invariant
                i <= self.notes.len(),
                rv == worst(self@.take(i as int)),
            decreases self.notes.len() - i,
        {
            let kind = self.notes[i].kind();
            assert(self@.take(i + 1).drop_last() =~= self@.take(i as int));
            assert(self@.take(i + 1).last() == self@[i as int]);
            if *kind > rv {
                rv = *kind;
            }
            i = i + 1;
        }
        proof {
            assert(self@.take(i as int) =~= self@);
            lemma_worst_is_maximum(self@);
        }
        rv
    }
}

// ----- Iter -----------------------------------------------------------------
/// Iterator for a `Summary`.
///
/// Items are yielded in consistent order. They're first sorted by
/// `Note.group()`, then (for notes with equal groups) by
/// `Note.message()`.
pub struct Iter<'a> {
    /// Sorted vec of integer indices into the notes for the
    /// `Summary`.
    indices: Vec<usize>,
    /// Reference to the summary containing the notes to iterate
    /// through.
    summary: &'a Summary,
    /// How many of the indices have been yielded.
    yielded: usize,
}

impl<'a> Iter<'a> {
    /// Every index points at a note of the summary, and no more notes have
    /// been yielded than there are.
    #[verifier::type_invariant]
    spec fn in_range(self) -> bool {
        &&& self.yielded <= self.indices@.len()
        &&& forall|k: int|
            0 <= k < self.indices@.len() ==> (#[trigger] self.indices@[k]) < self.summary.notes@.len()
    }

    /// The notes that are still to be yielded, in order.
    pub closed spec fn remaining(&self) -> Seq<NoteView> {
        Seq::new(
            (self.indices@.len() - self.yielded) as nat,
            |k: int| self.summary@[self.indices@[self.yielded + k] as int],
        )
    }

    /// Creates and returns a new `Iter` instance.
    fn new(summary: &'a Summary) -> (r: Self)
        ensures
            r.remaining() == listing(summary@),
    {
        let mut keys: Vec<SortKey> = Vec::new();
        let mut i: usize = 0;
        while i < summary.notes.len()
            invariant
                i <= summary.notes.len(),
                key_views(keys@) =~= note_keys(summary@.take(i as int)),
            decreases summary.notes.len() - i,
        {
            let note = &summary.notes[i];
            let ghost before = keys@;
            let ghost key = KeyView {
                group: note@.group,
                first: note@.message,
                second: Seq::<char>::empty(),
            };
            keys.push(SortKey { group: note.group, first: note.message.clone(), second: String::new() });
            assert(keys@.last()@ == key);
            assert(key_views(keys@) =~= key_views(before).push(key));
            assert(summary@.take(i + 1) =~= summary@.take(i as int).push(summary@[i as int]));
            assert(note_keys(summary@.take(i + 1)) =~= note_keys(summary@.take(i as int)).push(key));
            i = i + 1;
        }
        assert(summary@.take(i as int) =~= summary@);
        let indices = stable_order(&keys);
        proof {
            let chosen = choose|order: Seq<usize>| is_stable_order(note_keys(summary@), order);
            lemma_stable_order_unique(note_keys(summary@), indices@, chosen);
        }
        let r = Self { indices: indices, summary: summary, yielded: 0 };
        assert(r.remaining() =~= listing(summary@));
        r
    }

    /// Returns the next note (in order), or `None` if iteration is
    /// complete.
    pub fn next(&mut self) -> (r: Option<&'a Note>)
        ensures
            old(self).remaining().len() == 0 ==> r is None && final(self).remaining() == old(
                self,
            ).remaining(),
            old(self).remaining().len() > 0 ==> r is Some && r->0@ == old(self).remaining()[0]
                && final(self).remaining() == old(self).remaining().drop_first(),
    {
        proof {
            use_type_invariant(&*self);
        }
        if self.yielded >= self.indices.len() {
            None
        } else {
            let index = self.indices[self.yielded];
            let note = &self.summary.notes[index];
            self.yielded = self.yielded + 1;
            assert(self.remaining() =~= old(self).remaining().drop_first());
            Some(note)
        }
    }
}


// ----- TrackingBranch -------------------------------------------------------
/// `git2::Oid`: a commit id. It is carried from the repository to the
/// fast-forward and never looked into.
#[verifier::external_type_specification]
#[verifier::external_body]
pub struct ExOid(git2::Oid);

/// Mathematical value of a `TrackingBranch`.
pub ghost struct BranchView {
    pub local_name: Seq<char>,
    pub local_oid: git2::Oid,
    pub upstream_name: Seq<char>,
    pub upstream_oid: git2::Oid,
}

/// A local branch with its upstream, both with a name that is valid text and
/// a commit id that resolves.
pub struct TrackingBranch {
    /// Name of the local branch.
    local_name: String,
    /// Commit id of the local branch.
    local_oid: git2::Oid,
    /// Name of the upstream branch.
    upstream_name: String,
    /// Commit id of the upstream branch.
    upstream_oid: git2::Oid,
}

impl View for TrackingBranch {
    type V = BranchView;

    closed spec fn view(&self) -> BranchView {
        BranchView {
            local_name: self.local_name@,
            local_oid: self.local_oid,
            upstream_name: self.upstream_name@,
            upstream_oid: self.upstream_oid,
        }
    }
}

impl Clone for TrackingBranch {
    /// Copies the branch.
    fn clone(&self) -> (r: Self)
        ensures
            r@ == self@,
    {
        TrackingBranch {
            local_name: self.local_name.clone(),
            local_oid: self.local_oid,
            upstream_name: self.upstream_name.clone(),
            upstream_oid: self.upstream_oid,
        }
    }
}

impl TrackingBranch {
    /// Creates and returns a new `TrackingBranch` instance from the validated
    /// names and commit ids of a local branch and of its upstream.
    pub fn new(local_name: &str, local_oid: git2::Oid, upstream_name: &str, upstream_oid: git2::Oid) -> (r:
        Self)
        ensures
            r@ == (BranchView {
                local_name: local_name@,
                local_oid: local_oid,
                upstream_name: upstream_name@,
                upstream_oid: upstream_oid,
            }),
    {
        Self {
            local_name: local_name.to_owned(),
            local_oid: local_oid,
            upstream_name: upstream_name.to_owned(),
            upstream_oid: upstream_oid,
        }
    }

    /// Returns the name of the local branch.
    pub fn local_name(&self) -> (r: String)
        ensures
            r@ == self@.local_name,
    {
        self.local_name.clone()
    }

    /// Returns the oid of the local branch.
    pub fn local_oid(&self) -> (r: git2::Oid)
        ensures
            r == self@.local_oid,
    {
        self.local_oid
    }

    /// Returns the name of the upstream branch.
    pub fn upstream_name(&self) -> (r: String)
        ensures
            r@ == self@.upstream_name,
    {
        self.upstream_name.clone()
    }

    /// Returns the oid of the upstream branch.
    pub fn upstream_oid(&self) -> (r: git2::Oid)
        ensures
            r == self@.upstream_oid,
    {
        self.upstream_oid
    }
}

// ----- TrackingBranches -----------------------------------------------------
/// What a repository said when it was asked for the name of a branch.
pub enum NameProbe {
    /// The name, which is valid text.
    Text(String),
    /// The branch has a name that is not valid utf-8.
    NotText,
    /// The name could not be had; the text says why.
    Failed(String),
}

/// What a repository said of the upstream of a local branch.
pub struct UpstreamProbe {
    /// Name of the upstream branch.
    pub name: NameProbe,
    /// Commit id of the upstream branch, if it resolves.
    pub oid: Option<git2::Oid>,
}

/// What a repository said of a local branch whose entry could be read.
pub struct LocalProbe {
    /// Name of the local branch.
    pub name: NameProbe,
    /// Commit id of the local branch, if it resolves.
    pub oid: Option<git2::Oid>,
    /// The upstream of the branch, if it has one.
    pub upstream: Option<UpstreamProbe>,
}

/// What a repository said of one of its local branches.
pub enum BranchProbe {
    /// The entry could not be read; the text says why.
    Unreadable(String),
    /// The entry of a local branch.
    Local(LocalProbe),
}

/// What becomes of a local branch when it is validated.
pub ghost enum Verdict {
    /// The branch has no upstream: it is passed over in silence.
    Skip,
    /// The branch is a valid tracking branch.
    Accept(BranchView),
    /// The branch is left out, with this message.
    Reject(Seq<char>),
}

/// The verdict on the upstream of the local branch `local_name` with commit
/// id `local_oid`.
pub open spec fn upstream_verdict(local_name: Seq<char>, local_oid: git2::Oid, upstream: UpstreamProbe) -> Verdict {
    match upstream.name {
        NameProbe::Failed(why) => Verdict::Reject(
            "failed to get name of upstream branch for local branch "@ + local_name + " ("@ + why@ + ")"@,
        ),
        NameProbe::NotText => Verdict::Reject(
            "upstream branch name for local branch '"@ + local_name + "' is not valid utf-8"@,
        ),
        NameProbe::Text(upstream_name) => match upstream.oid {
            None => Verdict::Reject(
                "failed to resolve oid for upstream branch "@ + upstream_name@ + " (local branch is "@
                    + local_name + ")"@,
            ),
            Some(upstream_oid) => Verdict::Accept(
                BranchView {
                    local_name: local_name,
                    local_oid: local_oid,
                    upstream_name: upstream_name@,
                    upstream_oid: upstream_oid,
                },
            ),
        },
    }
}

/// The verdict on a local branch. A branch without upstream is passed over,
/// whatever else is known of it. Of a branch with an upstream, the name must
/// be valid text and the commit id must resolve, and the same is asked of
/// the upstream.
pub open spec fn verdict(probe: BranchProbe) -> Verdict {
    match probe {
        BranchProbe::Unreadable(why) => Verdict::Reject(
            "failed to get info for local branch ("@ + why@ + ")"@,
        ),
        BranchProbe::Local(local) => match local.upstream {
            None => Verdict::Skip,
            Some(upstream) => match local.name {
                NameProbe::Failed(why) => Verdict::Reject(
                    "failed to get name of local branch ("@ + why@ + ")"@,
                ),
                NameProbe::NotText => Verdict::Reject("local branch name is not valid utf-8"@),
                NameProbe::Text(local_name) => match local.oid {
                    None => Verdict::Reject("failed to resolve oid for local branch "@ + local_name@),
                    Some(local_oid) => upstream_verdict(local_name@, local_oid, upstream),
                },
            },
        },
    }
}

/// A local branch without upstream is passed over in silence: it is no
/// tracking branch and makes no error.
pub proof fn lemma_without_upstream_is_skipped(local: LocalProbe)
    requires
        local.upstream is None,
    ensures
        verdict(BranchProbe::Local(local)) == Verdict::Skip,
        accepted(seq![BranchProbe::Local(local)]) == Seq::<BranchView>::empty(),
        rejected(seq![BranchProbe::Local(local)]) == Seq::<Seq<char>>::empty(),
{
    let one = seq![BranchProbe::Local(local)];
    assert(one.last() == BranchProbe::Local(local));
    assert(one.drop_last() =~= Seq::<BranchProbe>::empty());
    reveal_with_fuel(accepted, 2);
    reveal_with_fuel(rejected, 2);
}

/// The valid tracking branches among `probes`, in their order.
pub open spec fn accepted(probes: Seq<BranchProbe>) -> Seq<BranchView>
    decreases probes.len(),
{
    if probes.len() == 0 {
        Seq::empty()
    } else {
        match verdict(probes.last()) {
            Verdict::Accept(branch) => accepted(probes.drop_last()).push(branch),
            _ => accepted(probes.drop_last()),
        }
    }
}

/// The messages for the branches among `probes` that are left out, in their
/// order.
pub open spec fn rejected(probes: Seq<BranchProbe>) -> Seq<Seq<char>>
    decreases probes.len(),
{
    if probes.len() == 0 {
        Seq::empty()
    } else {
        match verdict(probes.last()) {
            Verdict::Reject(message) => rejected(probes.drop_last()).push(message),
            _ => rejected(probes.drop_last()),
        }
    }
}

/// The branches among `branches` whose upstream name begins with `remote`, in
/// their order.
pub open spec fn of_remote(branches: Seq<BranchView>, remote: Seq<char>) -> Seq<BranchView>
    decreases branches.len(),
{
    if branches.len() == 0 {
        Seq::empty()
    } else if begins_with(branches.last().upstream_name, remote) {
        of_remote(branches.drop_last(), remote).push(branches.last())
    } else {
        of_remote(branches.drop_last(), remote)
    }
}

/// The message with which the listing of local branches is reported to have
/// failed for the reason `why`.
pub open spec fn listing_failure(why: Seq<char>) -> Seq<char> {
    "failed to fetch local branch data ("@ + why + ")"@
}

/// The values of a list of tracking branches.
pub open spec fn branch_views(branches: Seq<TrackingBranch>) -> Seq<BranchView> {
    branches.map_values(|b: TrackingBranch| b@)
}

/// The messages of a list of errors.
pub open spec fn error_views(errors: Seq<Error>) -> Seq<Seq<char>> {
    errors.map_values(|e: Error| e@)
}

/// Validates the upstream of a local branch.
fn check_upstream(local_name: &str, local_oid: git2::Oid, upstream: &UpstreamProbe) -> (r: Result<
    TrackingBranch,
    Error,
>)
    ensures
        match upstream_verdict(local_name@, local_oid, *upstream) {
            Verdict::Accept(branch) => r is Ok && r->Ok_0@ == branch,
            Verdict::Reject(message) => r is Err && r->Err_0@ == message,
            Verdict::Skip => false,
        },
{
    match &upstream.name {
        NameProbe::Failed(why) => {
            let mut m = String::from_str("failed to get name of upstream branch for local branch ");
            m.append(local_name);
            m.append(" (");
            m.append(why.as_str());
            m.append(")");
            Err(Error::new(m.as_str()))
        },
        NameProbe::NotText => {
            let mut m = String::from_str("upstream branch name for local branch '");
            m.append(local_name);
            m.append("' is not valid utf-8");
            Err(Error::new(m.as_str()))
        },
        NameProbe::Text(upstream_name) => match upstream.oid {
            None => {
                let mut m = String::from_str("failed to resolve oid for upstream branch ");
                m.append(upstream_name.as_str());
                m.append(" (local branch is ");
                m.append(local_name);
                m.append(")");
                Err(Error::new(m.as_str()))
            },
            Some(upstream_oid) => Ok(
                TrackingBranch::new(local_name, local_oid, upstream_name.as_str(), upstream_oid),
            ),
        },
    }
}

/// Validates a local branch: nothing for a branch without upstream, the
/// tracking branch where all is in order, else the error.
fn check(probe: &BranchProbe) -> (r: Option<Result<TrackingBranch, Error>>)
    ensures
        match verdict(*probe) {
            Verdict::Skip => r is None,
            Verdict::Accept(branch) => r is Some && r->0 is Ok && r->0->Ok_0@ == branch,
            Verdict::Reject(message) => r is Some && r->0 is Err && r->0->Err_0@ == message,
        },
{
    match probe {
        BranchProbe::Unreadable(why) => {
            let mut m = String::from_str("failed to get info for local branch (");
            m.append(why.as_str());
            m.append(")");
            Some(Err(Error::new(m.as_str())))
        },
        BranchProbe::Local(local) => match &local.upstream {
            None => None,
            Some(upstream) => match &local.name {
                NameProbe::Failed(why) => {
                    let mut m = String::from_str("failed to get name of local branch (");
                    m.append(why.as_str());
                    m.append(")");
                    Some(Err(Error::new(m.as_str())))
                },
                NameProbe::NotText => Some(Err(Error::new("local branch name is not valid utf-8"))),
                NameProbe::Text(local_name) => match local.oid {
                    None => {
                        let mut m = String::from_str("failed to resolve oid for local branch ");
                        m.append(local_name.as_str());
                        Some(Err(Error::new(m.as_str())))
                    },
                    Some(local_oid) => Some(check_upstream(local_name.as_str(), local_oid, upstream)),
                },
            },
        },
    }
}

/// The valid tracking branches of a repository, in the order in which the
/// repository lists them, with the errors for the branches that were left
/// out.
///
/// For each local branch this checks:
///
/// * That the branch has an upstream (if not, the branch is passed over and
///   nothing else is asked of it)
/// * That the local branch has a (valid utf-8) name
/// * That the local branch's oid resolves
/// * That the upstream branch has a (valid utf-8) name
/// * That the upstream branch's oid resolves
pub struct TrackingBranches {
    /// `Vec` of tracking branches remaining to be iterated through.
    branches: Vec<TrackingBranch>,
    /// The errors for the branches that failed validation.
    errors: Vec<Error>,
}

impl TrackingBranches {
    /// The tracking branches that are still to be yielded, in order.
    pub closed spec fn remaining(&self) -> Seq<BranchView> {
        branch_views(self.branches@)
    }

    /// The messages of the errors for the branches that were left out.
    pub closed spec fn failures(&self) -> Seq<Seq<char>> {
        error_views(self.errors@)
    }

    /// Creates and returns the tracking branches of a repository from what
    /// the repository said of its local branches. A branch that fails
    /// validation is left out and its error kept; only where the branches
    /// could not be listed at all is there nothing but an error.
    pub fn for_repository(listing: Result<Vec<BranchProbe>, String>) -> (r: Result<Self, Vec<Error>>)
        ensures
            r is Ok == listing is Ok,
            r is Ok ==> r->Ok_0.remaining() == accepted(listing->Ok_0@) && r->Ok_0.failures()
                == rejected(listing->Ok_0@),
            r is Err ==> error_views(r->Err_0@) == seq![listing_failure(listing->Err_0@)],
    {
        match Self::get(listing) {
            Ok((branches, errors)) => Ok(Self { branches: branches, errors: errors }),
            Err(e) => Err(e),
        }
    }

    /// Creates and returns the tracking branches of a repository, limited to
    /// tracking branches whose upstream is the remote named `name`: those
    /// whose upstream name begins with `name`.
    pub fn for_remote(listing: Result<Vec<BranchProbe>, String>, name: &str) -> (r: Result<
        Self,
        Vec<Error>,
    >)
        ensures
            r is Ok == listing is Ok,
            r is Ok ==> r->Ok_0.remaining() == of_remote(accepted(listing->Ok_0@), name@)
                && r->Ok_0.failures() == rejected(listing->Ok_0@),
            r is Err ==> error_views(r->Err_0@) == seq![listing_failure(listing->Err_0@)],
    {
        match Self::get(listing) {
            Ok((branches, errors)) => {
                let mut remote_branches: Vec<TrackingBranch> = Vec::new();
                let mut i: usize = 0;
                assert(branch_views(branches@).take(0) =~= Seq::empty());
                while i < branches.len()
                    invariant
                        i <= branches.len(),
                        branch_views(remote_branches@) =~= of_remote(
                            branch_views(branches@).take(i as int),
                            name@,
                        ),
                    decreases branches.len() - i,
                {
                    let ghost all = branch_views(branches@);
                    let ghost before = remote_branches@;
                    assert(all.take(i + 1).drop_last() =~= all.take(i as int));
                    assert(all.take(i + 1).last() == branches@[i as int]@);
                    if has_prefix(branches[i].upstream_name.as_str(), name) {
                        remote_branches.push(branches[i].clone());
                        assert(branch_views(remote_branches@) =~= branch_views(before).push(
                            branches@[i as int]@,
                        ));
                    }
                    i = i + 1;
                }
                assert(branch_views(branches@).take(i as int) =~= branch_views(branches@));
                Ok(Self { branches: remote_branches, errors: errors })
            },
            Err(e) => Err(e),
        }
    }

    /// Returns the valid tracking branches among the local branches of a
    /// repository, and the errors for those that failed validation.
    fn get(listing: Result<Vec<BranchProbe>, String>) -> (r: Result<
        (Vec<TrackingBranch>, Vec<Error>),
        Vec<Error>,
    >)
        ensures
            r is Ok == listing is Ok,
            r matches Ok(found) ==> branch_views(found.0@) == accepted(listing->Ok_0@) && error_views(
                found.1@,
            ) == rejected(listing->Ok_0@),
            r is Err ==> error_views(r->Err_0@) == seq![listing_failure(listing->Err_0@)],
    {
        let probes = match listing {
            Ok(probes) => probes,
            Err(why) => {
                let mut m = String::from_str("failed to fetch local branch data (");
                m.append(why.as_str());
                m.append(")");
                let mut errors: Vec<Error> = Vec::new();
                errors.push(Error::new(m.as_str()));
                assert(error_views(errors@) =~= seq![listing_failure(why@)]);
                return Err(errors);
            },
        };
        let mut rv: Vec<TrackingBranch> = Vec::new();
        let mut errors: Vec<Error> = Vec::new();
        let mut i: usize = 0;
        assert(probes@.take(0) =~= Seq::empty());
        while i < probes.len()
            invariant
                i <= probes.len(),
                branch_views(rv@) =~= accepted(probes@.take(i as int)),
                error_views(errors@) =~= rejected(probes@.take(i as int)),
            decreases probes.len() - i,
        {
            let ghost seen = rv@;
            let ghost failed = errors@;
            assert(probes@.take(i + 1).drop_last() =~= probes@.take(i as int));
            assert(probes@.take(i + 1).last() == probes@[i as int]);
            match check(&probes[i]) {
                None => {},
                Some(Ok(branch)) => {
                    rv.push(branch);
                    assert(branch_views(rv@) =~= branch_views(seen).push(branch@));
                },
                Some(Err(error)) => {
                    errors.push(error);
                    assert(error_views(errors@) =~= error_views(failed).push(error@));
                },
            }
            i = i + 1;
        }
        assert(probes@.take(i as int) =~= probes@);
        Ok((rv, errors))
    }

    /// Returns the errors for the branches that were left out.
    pub fn errors(&self) -> (r: &[Error])
        ensures
            error_views(r@) == self.failures(),
    {
        self.errors.as_slice()
    }

    /// Returns the next tracking branch (if any).
    pub fn next(&mut self) -> (r: Option<TrackingBranch>)
        ensures
            final(self).failures() == old(self).failures(),
            old(self).remaining().len() == 0 ==> r is None && final(self).remaining() == old(
                self,
            ).remaining(),
            old(self).remaining().len() > 0 ==> r is Some && r->0@ == old(self).remaining()[0]
                && final(self).remaining() == old(self).remaining().drop_first(),
    {
        if self.branches.len() == 0 {
            None
        } else {
            let branch = self.branches.remove(0);
            assert(self.remaining() =~= old(self).remaining().drop_first());
            Some(branch)
        }
    }
}

} // verus!
