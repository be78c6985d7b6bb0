//! `mkdir`: creates each directory given, in order; with `-p` it creates the
//! missing parents first and takes an existing directory as no error.

use vstd::prelude::*;

use crate::bytes::copy_bytes;
use crate::codes::{eexist, enoent, spec_eexist, spec_enoent};
use crate::options::{
    first_unknown_is, flag_given, has_unknown, operands_start, scan_options, usage_message,
    usage_text, ArgsError,
};

verus! {

/// The flag that `mkdir` knows: `-p`.
pub open spec fn mkdir_flags() -> Seq<u8> {
    seq!['p' as u8]
}

/// What the command line of `mkdir` asks for.
#[derive(Debug)]
pub struct MkdirArgs {
    /// Whether missing parents are created, and existing directories
    /// accepted (`-p`).
    pub parents: bool,
    /// The directories to create, in order.
    pub directories: Vec<Vec<u8>>,
}

/// Parses the command line of `mkdir`: `args[0]` is the program's name,
/// then come the flags and at least one path.
///
/// Fails on the first flag byte that is neither `p` nor a dash, and with
/// [`ArgsError::Usage`] where no path is given.
pub fn parse_args(args: &Vec<Vec<u8>>) -> (r: Result<MkdirArgs, ArgsError>)
    requires
        args@.len() >= 1,
    ensures
        ({
            let a = args.deep_view();
            let end = operands_start(a, 1);
            &&& r is Ok <==> !has_unknown(a, 1, seq!['p' as u8]) && end < a.len()
            &&& r matches Err(ArgsError::UnknownOption(c)) ==> first_unknown_is(
                a,
                1,
                seq!['p' as u8],
                c,
            )
            &&& r matches Err(ArgsError::Usage) ==> !has_unknown(a, 1, seq!['p' as u8]) && end
                == a.len()
            &&& r matches Ok(x) ==> {
                &&& x.parents == flag_given(a, 1, 'p' as u8)
                &&& x.directories.deep_view() == a.subrange(end, a.len() as int)
            }
        }),
{
    let known: Vec<u8> = vec!['p' as u8];
    assert(known@ =~= mkdir_flags());
    let scan = match scan_options(args, 1, &known) {
        Ok(scan) => scan,
        Err(c) => {
            return Err(ArgsError::UnknownOption(c));
        },
    };
    let ghost a = args.deep_view();
    let end = scan.operands;
    if end == args.len() {
        return Err(ArgsError::Usage);
    }
    let mut directories: Vec<Vec<u8>> = Vec::new();
    let mut i = end;
    while i < args.len()
        invariant
            a == args.deep_view(),
            end <= i <= args@.len(),
            directories.deep_view() == a.subrange(end as int, i as int),
        decreases args@.len() - i,
    {
        let d = copy_bytes(&args[i]);
        assert(d.deep_view() =~= a[i as int]);
        let ghost before = directories.deep_view();
        let ghost before_v = directories@;
        assert(a.len() == args@.len());
        assert(before.len() == before_v.len());
        assert(before_v.len() == i - end);
        directories.push(d);
        assert forall|k: int| 0 <= k < directories@.len() implies #[trigger] directories.deep_view()[k]
            == a.subrange(end as int, i + 1)[k] by {
            assert(directories.deep_view()[k] == directories@[k].deep_view());
            if k < directories@.len() - 1 {
                assert(directories@[k] == before_v[k]);
                assert(before[k] == before_v[k].deep_view());
                assert(before[k] == a.subrange(end as int, i as int)[k]);
                assert(a.subrange(end as int, i + 1)[k] == a.subrange(end as int, i as int)[k]);
            } else {
                assert(directories@[k] == d);
                assert(k == i - end);
                assert(a.subrange(end as int, i + 1)[k] == a[i as int]);
            }
        }
        assert(directories.deep_view() =~= a.subrange(end as int, i + 1));
        i = i + 1;
    }
    Ok(MkdirArgs { parents: scan.present[0], directories })
}

/// What a run of `mkdir` asks of the system next.
pub enum MkdirAction {
    /// Call `mkdir(2)` on this path, then report with
    /// [`MkdirRun::on_created`] or [`MkdirRun::on_error`].
    Create(Vec<u8>),
    /// Call `dirname(3)` on this path, then report the result with
    /// [`MkdirRun::on_parent`].
    FindParent(Vec<u8>),
    /// Every directory exists now.
    Finished,
    /// `mkdir(2)` failed with this `errno`: the run is over.
    Failed(i32),
}

/// A run of `mkdir` over the directories of its command line. With `-p`, a
/// path whose parent is missing waits on a stack while the parent is
/// created, and is then tried again.
pub struct MkdirRun {
    parents: bool,
    directories: Vec<Vec<u8>>,
    next: usize,
    pending: Vec<Vec<u8>>,
}

impl MkdirRun {
    /// Whether missing parents are created (`-p`).
    pub closed spec fn parents(&self) -> bool {
        self.parents
    }

    /// The directories of the command line.
    pub closed spec fn directories(&self) -> Seq<Seq<u8>> {
        self.directories.deep_view()
    }

    /// How many directories of the command line have been started.
    pub closed spec fn started(&self) -> nat {
        self.next as nat
    }

    /// The paths being created: the last one is tried now, each of the
    /// others waits for the one after it, its parent.
    pub closed spec fn pending(&self) -> Seq<Seq<u8>> {
        self.pending.deep_view()
    }

    /// The run's invariant: no more directories started than given, and the
    /// first pending path is the directory of the command line started last.
    pub closed spec fn wf(&self) -> bool {
        &&& self.next <= self.directories@.len()
        &&& self.pending@.len() > 0 ==> self.next >= 1 && self.pending.deep_view()[0]
            == self.directories.deep_view()[self.next - 1]
    }

    /// Starts a run over the directories of `args`; nothing is started yet.
    pub fn new(args: MkdirArgs) -> (run: MkdirRun)
        ensures
            run.wf(),
            run.parents() == args.parents,
            run.directories() == args.directories.deep_view(),
            run.started() == 0,
            run.pending() == Seq::<Seq<u8>>::empty(),
    {
        let run = MkdirRun {
            parents: args.parents,
            directories: args.directories,
            next: 0,
            pending: Vec::new(),
        };
        assert(run.pending.deep_view() =~= Seq::<Seq<u8>>::empty());
        run
    }

    /// Returns the last pending path; there is one.
    fn top(&self) -> (p: Vec<u8>)
        requires
            self.pending@.len() > 0,
        ensures
            p@ == self.pending.deep_view().last(),
    {
        let p = copy_bytes(&self.pending[self.pending.len() - 1]);
        assert(p@ =~= self.pending.deep_view().last());
        p
    }

    /// Goes on with the run: tries the last pending path again where there is
    /// one, else starts the next directory of the command line, else the run
    /// is finished.
    fn advance(&mut self) -> (action: MkdirAction)
        requires
            old(self).wf(),
        ensures
            final(self).wf(),
            final(self).parents() == old(self).parents(),
            advanced(
                old(self).directories(),
                old(self).started(),
                old(self).pending(),
                *final(self),
                action,
            ),
            old(self).pending().len() == 0 && old(self).started() < old(self).directories().len() ==> (
            action matches MkdirAction::Create(p) && p@ == old(self).directories()[old(
                self,
            ).started() as int]) && final(self).started() == old(self).started() + 1,
            action is Finished ==> old(self).pending().len() == 0 && old(self).started() == old(
                self,
            ).directories().len(),
    {
        if self.pending.len() > 0 {
            let p = self.top();
            MkdirAction::Create(p)
        } else if self.next < self.directories.len() {
            let d = copy_bytes(&self.directories[self.next]);
            assert(d.deep_view() =~= self.directories.deep_view()[self.next as int]);
            let d2 = copy_bytes(&d);
            assert(d2.deep_view() =~= d@);
            self.pending.push(d2);
            self.next = self.next + 1;
            assert(self.pending@.len() == 1);
            assert(self.pending.deep_view()[0] == self.pending@[0].deep_view());
            assert(self.pending.deep_view() =~= seq![d@]);
            MkdirAction::Create(d)
        } else {
            MkdirAction::Finished
        }
    }

    /// Whether a path is pending: there is one after each
    /// [`MkdirAction::Create`] and [`MkdirAction::FindParent`].
    pub fn has_pending(&self) -> (r: bool)
        ensures
            r == (self.pending().len() > 0),
    {
        self.pending.len() > 0
    }

    /// Starts the run, or goes on with it: see [`advanced`].
    pub fn start(&mut self) -> (action: MkdirAction)
        requires
            old(self).wf(),
        ensures
            final(self).wf(),
            final(self).parents() == old(self).parents(),
            advanced(
                old(self).directories(),
                old(self).started(),
                old(self).pending(),
                *final(self),
                action,
            ),
            old(self).pending().len() == 0 && old(self).started() < old(self).directories().len() ==> (
            action matches MkdirAction::Create(p) && p@ == old(self).directories()[old(
                self,
            ).started() as int]) && final(self).started() == old(self).started() + 1,
            action is Finished ==> old(self).pending().len() == 0 && old(self).started() == old(
                self,
            ).directories().len(),
    {
        self.advance()
    }

    /// Drops the last pending path, which exists now, and goes on.
    fn finish_top(&mut self) -> (action: MkdirAction)
        requires
            old(self).wf(),
            old(self).pending().len() > 0,
        ensures
            final(self).wf(),
            final(self).parents() == old(self).parents(),
            advanced(
                old(self).directories(),
                old(self).started(),
                old(self).pending().drop_last(),
                *final(self),
                action,
            ),
    {
        let ghost before = self.pending@;
        let _ = self.pending.pop();
        assert(self.pending@ == before.drop_last());
        assert(self.pending.deep_view() =~= old(self).pending().drop_last());
        self.advance()
    }

    /// Goes on after `mkdir(2)` created the path of the last
    /// [`MkdirAction::Create`]: that path is done, and a path that waited for
    /// it as its parent is tried again.
    pub fn on_created(&mut self) -> (action: MkdirAction)
        requires
            old(self).wf(),
            old(self).pending().len() > 0,
        ensures
            final(self).wf(),
            final(self).parents() == old(self).parents(),
            advanced(
                old(self).directories(),
                old(self).started(),
                old(self).pending().drop_last(),
                *final(self),
                action,
            ),
            old(self).pending().drop_last().len() == 0 && old(self).started() < old(self).directories().len() ==> (
            action matches MkdirAction::Create(p) && p@ == old(self).directories()[old(
                self,
            ).started() as int]) && final(self).started() == old(self).started() + 1,
            action is Finished ==> old(self).pending().drop_last().len() == 0 && old(self).started() == old(
                self,
            ).directories().len(),
    {
        self.finish_top()
    }

    /// Goes on after `mkdir(2)` failed with `errno` set to `err` on the path
    /// of the last [`MkdirAction::Create`].
    ///
    /// With `-p`, a missing parent (`ENOENT`) is looked for, and an existing
    /// path (`EEXIST`) is done as if it was created. Any other error, and any
    /// error without `-p`, fails the run.
    pub fn on_error(&mut self, err: i32) -> (action: MkdirAction)
        requires
            old(self).wf(),
            old(self).pending().len() > 0,
        ensures
            final(self).wf(),
            final(self).parents() == old(self).parents(),
            old(self).parents() && err == spec_enoent() ==> {
                &&& *final(self) == *old(self)
                &&& action matches MkdirAction::FindParent(p) && p@ == old(self).pending().last()
            },
            old(self).parents() && err == spec_eexist() ==> advanced(
                old(self).directories(),
                old(self).started(),
                old(self).pending().drop_last(),
                *final(self),
                action,
            ),
            old(self).parents() && err == spec_eexist() && old(self).pending().len() == 1
                && old(self).started() < old(self).directories().len() ==> (
            action matches MkdirAction::Create(p) && p@ == old(self).directories()[old(
                self,
            ).started() as int]) && final(self).started() == old(self).started() + 1,
            old(self).parents() && err == spec_eexist() && action is Finished ==> old(
                self,
            ).pending().len() == 1 && old(self).started() == old(self).directories().len(),
            !(old(self).parents() && (err == spec_enoent() || err == spec_eexist())) ==> {
                &&& *final(self) == *old(self)
                &&& action == MkdirAction::Failed(err)
            },
    {
        if self.parents && err == enoent() {
            let p = self.top();
            MkdirAction::FindParent(p)
        } else if self.parents && err == eexist() {
            self.finish_top()
        } else {
            MkdirAction::Failed(err)
        }
    }

    /// Goes on with `parent`, what `dirname(3)` returned for the path of the
    /// last [`MkdirAction::FindParent`]: the parent is created first, and the
    /// path waits for it.
    pub fn on_parent(&mut self, parent: Vec<u8>) -> (action: MkdirAction)
        requires
            old(self).wf(),
            old(self).pending().len() > 0,
        ensures
            final(self).wf(),
            final(self).parents() == old(self).parents(),
            final(self).directories() == old(self).directories(),
            final(self).started() == old(self).started(),
            final(self).pending() == old(self).pending().push(parent@),
            action matches MkdirAction::Create(p) && p@ == parent@,
    {
        let p = copy_bytes(&parent);
        assert(parent.deep_view() =~= parent@);
        let ghost before = self.pending@;
        self.pending.push(parent);
        assert(self.pending@ == before.push(parent));
        assert(self.pending.deep_view() =~= old(self).pending().push(parent@));
        MkdirAction::Create(p)
    }
}

/// What [`MkdirRun`] does when it goes on from `started` directories of
/// `directories` started and the paths `pending`: the last pending path is
/// tried again; where none is pending, the next directory of the command line
/// is started; where none is left, the run is finished.
pub open spec fn advanced(
    directories: Seq<Seq<u8>>,
    started: nat,
    pending: Seq<Seq<u8>>,
    after: MkdirRun,
    action: MkdirAction,
) -> bool {
    &&& after.directories() == directories
    &&& if pending.len() > 0 {
        &&& after.started() == started
        &&& after.pending() == pending
        &&& action matches MkdirAction::Create(p) && p@ == pending.last()
    } else if started < directories.len() {
        &&& after.started() == started + 1
        &&& after.pending() == seq![directories[started as int]]
        &&& action matches MkdirAction::Create(p) && p@ == directories[started as int]
    } else {
        &&& after.started() == started
        &&& after.pending() == pending
        &&& action is Finished
    }
}

/// Once a missing parent exists, the path that waited for it is tried
/// again: going on from the pending paths with the parent dropped gives back
/// the path that waited.
pub proof fn law_parent_done_retries_child(
    directories: Seq<Seq<u8>>,
    started: nat,
    pending: Seq<Seq<u8>>,
    parent: Seq<u8>,
    after: MkdirRun,
    action: MkdirAction,
)
    requires
        pending.len() > 0,
        advanced(directories, started, pending.push(parent).drop_last(), after, action),
    ensures
        action matches MkdirAction::Create(p) && p@ == pending.last(),
        after.pending() == pending,
{
    assert(pending.push(parent).drop_last() =~= pending);
}

/// The directories of the command line are started one after the other:
/// with no path pending, going on starts the directory at `started` (the
/// count grows by exactly one) while one is left, and finishes only once all
/// of them were started; with a path pending, that path is tried again.
pub proof fn law_directories_in_order(
    directories: Seq<Seq<u8>>,
    started: nat,
    pending: Seq<Seq<u8>>,
    after: MkdirRun,
    action: MkdirAction,
)
    requires
        started <= directories.len(),
        advanced(directories, started, pending, after, action),
    ensures
        after.directories() == directories,
        pending.len() == 0 && started < directories.len() ==> (action matches MkdirAction::Create(
            p,
        ) && p@ == directories[started as int]) && after.started() == started + 1
            && after.pending() == seq![directories[started as int]],
        action is Finished ==> pending.len() == 0 && started == directories.len()
            && after.started() == started && after.pending().len() == 0,
        pending.len() > 0 ==> (action matches MkdirAction::Create(p) && p@ == pending.last())
            && after.started() == started && after.pending() == pending,
        pending.len() == 0 && started == directories.len() ==> action is Finished,
{
}

/// A run is finished only once every directory of the command line has been
/// started and no path is pending.
pub proof fn law_finished_after_every_directory(
    directories: Seq<Seq<u8>>,
    started: nat,
    pending: Seq<Seq<u8>>,
    after: MkdirRun,
    action: MkdirAction,
)
    requires
        started <= directories.len(),
        advanced(directories, started, pending, after, action),
        action is Finished,
    ensures
        after.started() == directories.len(),
        after.pending().len() == 0,
{
}

/// What follows the program's name in the usage text of `mkdir`.
pub open spec fn synopsis() -> Seq<char> {
    " [FLAGS] <PATHS...>\n\nFLAGS\n\n  -p\tCreate parent directories. No error if the directory exists\n"@
}

/// Returns the usage text of `mkdir`, run as `argv0`.
pub fn usage(argv0: &Vec<u8>) -> (r: Vec<u8>)
    ensures
        r@ == usage_text(argv0@, synopsis()),
{
    proof {
        reveal_strlit(
            " [FLAGS] <PATHS...>\n\nFLAGS\n\n  -p\tCreate parent directories. No error if the directory exists\n",
        );
    }
    usage_message(
        argv0,
        " [FLAGS] <PATHS...>\n\nFLAGS\n\n  -p\tCreate parent directories. No error if the directory exists\n",
    )
}

} // verus!
