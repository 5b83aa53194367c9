//! The libraries that an install profile lists, and how one is fetched.
//!
//! Fetching is a machine of a few steps. Its driver looks whether the file
//! is there, asks the hosts, writes the file; the machine says which of
//! these is next. A library that no host has is no fault: the driver is
//! told to warn, and the fetch ends.

use crate::error::{Fault, InstallError};
use crate::maven::{is_coordinate, maven_path, path_chars};
use crate::mirrors::{choose_mirror, mirror_of, Mirror};
use crate::path::{join_chars, join_path, url_of};
use crate::profile::NeoProfile;
use crate::text;
use vstd::prelude::*;

verus! {

/// A library of the profile: its coordinate and where it is offered.
#[derive(Debug, Clone)]
pub struct Library {
    pub name: String,
    pub downloads: LibraryDownloads,
}

/// The downloads that belong to a library.
#[derive(Debug, Clone)]
pub struct LibraryDownloads {
    pub artifact: LibraryDownload,
}

/// Where a library's archive is offered, with its size and hash. The hash
/// is carried along and not checked.
#[derive(Debug, Clone)]
pub struct LibraryDownload {
    pub sha1: String,
    pub size: u64,
    pub url: String,
    pub path: String,
}

/// The host that is asked when the mirror does not have a library.
pub const FALLBACK_HOST: &'static str = "https://libraries.minecraft.net";

/// The address of the host that is asked when the mirror fails.
pub open spec fn fallback_host() -> Seq<char> {
    "https://libraries.minecraft.net"@
}

/// What fetching one library needs: the file to write, the address to ask
/// first, and the address to ask when the first does not have it.
#[derive(Debug, Clone, PartialEq, Eq)]
pub struct LibraryFetch {
    pub target: String,
    pub primary: String,
    pub fallback: String,
}

/// What a `LibraryFetch` stands for.
pub struct FetchView {
    pub target: Seq<char>,
    pub primary: Seq<char>,
    pub fallback: Seq<char>,
}

impl View for LibraryFetch {
    type V = FetchView;

    open spec fn view(&self) -> FetchView {
        FetchView { target: self.target@, primary: self.primary@, fallback: self.fallback@ }
    }
}

/// How the library `name` is fetched: its file is its coordinate's path in
/// the library directory, and both hosts are asked for that same path.
pub open spec fn fetch_of(name: Seq<char>, lib: Seq<char>, mirror: Seq<char>) -> Result<
    FetchView,
    Fault,
> {
    if is_coordinate(name) {
        Ok(
            FetchView {
                target: join_path(lib, maven_path(name)),
                primary: url_of(mirror, maven_path(name)),
                fallback: url_of(fallback_host(), maven_path(name)),
            },
        )
    } else {
        Err(Fault::InvalidCoordinate(name))
    }
}

/// How each of the libraries `names` is fetched, in their order; the fault
/// of the first that is no coordinate.
pub open spec fn fetches_of(names: Seq<Seq<char>>, lib: Seq<char>, mirror: Seq<char>) -> Result<
    Seq<FetchView>,
    Fault,
>
    decreases names.len(),
{
    if names.len() == 0 {
        Ok(Seq::empty())
    } else {
        match fetches_of(names.drop_last(), lib, mirror) {
            Ok(done) => match fetch_of(names.last(), lib, mirror) {
                Ok(f) => Ok(done.push(f)),
                Err(e) => Err(e),
            },
            Err(e) => Err(e),
        }
    }
}

/// The coordinates of the libraries `v`, in their order.
pub open spec fn library_names(v: Seq<Library>) -> Seq<Seq<char>> {
    Seq::new(v.len(), |i: int| v[i].name@)
}

/// What the fetches `v` stand for, in their order.
pub open spec fn fetch_views(v: Seq<LibraryFetch>) -> Seq<FetchView> {
    Seq::new(v.len(), |i: int| v[i]@)
}

/// How all libraries of a profile are fetched, given the mirror list: from
/// the list's first mirror. An empty list is a fault.
pub open spec fn library_fetches_of(
    libraries: Seq<Library>,
    lib: Seq<char>,
    mirrors: Seq<Mirror>,
) -> Result<Seq<FetchView>, Fault> {
    match mirror_of(mirrors) {
        Ok(mirror) => fetches_of(library_names(libraries), lib, mirror),
        Err(e) => Err(e),
    }
}

/// How the library `name` is fetched.
pub fn plan_fetch(name: &str, lib_path: &str, mirror: &str) -> (r: Result<
    LibraryFetch,
    InstallError,
>)
    ensures
        match r {
            Ok(f) => fetch_of(name@, lib_path@, mirror@) == Ok::<FetchView, Fault>(f@),
            Err(e) => fetch_of(name@, lib_path@, mirror@) == Err::<FetchView, Fault>(e@),
        },
{
    let coordinate = text::chars_of(name);
    match path_chars(&coordinate) {
        Some(rel) => {
            let lib = text::chars_of(lib_path);
            let target = text::string_of(&join_chars(&lib, &rel));
            let mut primary = text::chars_of(mirror);
            primary.push('/');
            text::push_all(&mut primary, &rel);
            assert(primary@ =~= url_of(mirror@, rel@));
            let mut fallback = text::chars_of(FALLBACK_HOST);
            fallback.push('/');
            text::push_all(&mut fallback, &rel);
            assert(fallback@ =~= url_of(fallback_host(), rel@));
            Ok(
                LibraryFetch {
                    target,
                    primary: text::string_of(&primary),
                    fallback: text::string_of(&fallback),
                },
            )
        },
        None => Err(InstallError::InvalidCoordinate(name.to_owned())),
    }
}

/// A fault among the first libraries is the fault of them all.
proof fn lemma_fetches_fault(names: Seq<Seq<char>>, i: int, lib: Seq<char>, mirror: Seq<char>)
    requires
        0 <= i < names.len(),
        fetches_of(names.take(i + 1), lib, mirror) is Err,
    ensures
        fetches_of(names, lib, mirror) == fetches_of(names.take(i + 1), lib, mirror),
    decreases names.len(),
{
    if i + 1 < names.len() {
        assert(names.drop_last().take(i + 1) =~= names.take(i + 1));
        lemma_fetches_fault(names.drop_last(), i, lib, mirror);
    } else {
        assert(names.take(i + 1) =~= names);
    }
}

/// How the libraries of the profile `data` are fetched, given the mirror
/// list: one fetch for each library, in the profile's order. The fetches
/// do not depend on each other and may run in any order.
pub fn download_libs(data: &NeoProfile, lib_path: &str, mirrors: &Vec<Mirror>) -> (r: Result<
    Vec<LibraryFetch>,
    InstallError,
>)
    ensures
        match r {
            Ok(v) => library_fetches_of(data.libraries@, lib_path@, mirrors@) == Ok::<
                Seq<FetchView>,
                Fault,
            >(fetch_views(v@)),
            Err(e) => library_fetches_of(data.libraries@, lib_path@, mirrors@) == Err::<
                Seq<FetchView>,
                Fault,
            >(e@),
        },
{
    let libraries = &data.libraries;
    let mirror = match choose_mirror(mirrors) {
        Ok(url) => url,
        Err(e) => {
            return Err(e);
        },
    };
    let mut out: Vec<LibraryFetch> = Vec::new();
    let mut i: usize = 0;
    let ghost names = library_names(libraries@);
    assert(names.take(0) =~= Seq::<Seq<char>>::empty());
    assert(fetch_views(out@) =~= Seq::<FetchView>::empty());
    while i < libraries.len()
        invariant
            i <= libraries.len(),
            names == library_names(libraries@),
            *libraries == data.libraries,
            mirror_of(mirrors@) == Ok::<Seq<char>, Fault>(mirror@),
            fetches_of(names.take(i as int), lib_path@, mirror@) == Ok::<Seq<FetchView>, Fault>(
                fetch_views(out@),
            ),
        decreases libraries.len() - i,
    {
        let ghost done = fetch_views(out@);
        assert(names.take(i + 1).drop_last() =~= names.take(i as int));
        assert(names.take(i + 1).last() == libraries@[i as int].name@);
        match plan_fetch(libraries[i].name.as_str(), lib_path, mirror) {
            Ok(f) => {
                out.push(f);
                assert(fetch_views(out@) =~= done.push(f@));
            },
            Err(e) => {
                proof {
                    lemma_fetches_fault(names, i as int, lib_path@, mirror@);
                }
                return Err(e);
            },
        }
        i = i + 1;
    }
    assert(names.take(libraries@.len() as int) =~= names);
    Ok(out)
}

/// Where the fetch of one library stands.
#[derive(Debug, Clone, Copy, PartialEq, Eq, Structural)]
pub enum FetchStage {
    /// Nothing was done yet.
    Start,
    /// Waiting to hear whether the file is there.
    Checking,
    /// Waiting for the mirror's answer.
    Primary,
    /// Waiting for the fallback host's answer.
    Fallback,
    /// The fetch is over.
    Done,
}

/// What the driver of a fetch reports.
#[derive(Debug, Clone, Copy, PartialEq, Eq, Structural)]
pub enum FetchEvent {
    /// Nothing to report: the fetch begins.
    Begin,
    /// Whether the file is there.
    Exists(bool),
    /// A host answered; `true` where its status is success.
    Response(bool),
    /// What was asked for could not be done at all.
    Broken,
}

/// What the driver of a fetch is to do next.
#[derive(Debug, Clone, PartialEq, Eq)]
pub enum FetchAction {
    /// Look whether this file is there, and report `Exists`.
    Check(String),
    /// Ask for this address, and report `Response`.
    Get(String),
    /// Write what the last answer held to this file. The fetch is over.
    Store(String),
    /// Warn that this address, the last one asked, did not have the
    /// library. The fetch is over, and it has not failed.
    Warn(String),
    /// Do nothing more.
    Stop,
}

/// What a `FetchAction` stands for.
pub enum FetchActionView {
    Check(Seq<char>),
    Get(Seq<char>),
    Store(Seq<char>),
    Warn(Seq<char>),
    Stop,
}

impl View for FetchAction {
    type V = FetchActionView;

    open spec fn view(&self) -> FetchActionView {
        match self {
            FetchAction::Check(s) => FetchActionView::Check(s@),
            FetchAction::Get(s) => FetchActionView::Get(s@),
            FetchAction::Store(s) => FetchActionView::Store(s@),
            FetchAction::Warn(s) => FetchActionView::Warn(s@),
            FetchAction::Stop => FetchActionView::Stop,
        }
    }
}

/// The step of a fetch. A file that is there is left alone and nothing is
/// asked. Else the mirror is asked; its success is written to the file,
/// and on any other status the fallback host is asked; its success is
/// written, and on any other status the driver is told to warn. A report
/// that does not answer what was asked ends the fetch.
pub open spec fn fetch_step_of(plan: FetchView, stage: FetchStage, event: FetchEvent) -> (
    FetchStage,
    FetchActionView,
) {
    match stage {
        FetchStage::Start => (FetchStage::Checking, FetchActionView::Check(plan.target)),
        FetchStage::Checking => match event {
            FetchEvent::Exists(false) => (FetchStage::Primary, FetchActionView::Get(plan.primary)),
            _ => (FetchStage::Done, FetchActionView::Stop),
        },
        FetchStage::Primary => match event {
            FetchEvent::Response(true) => (FetchStage::Done, FetchActionView::Store(plan.target)),
            FetchEvent::Response(false) => (
                FetchStage::Fallback,
                FetchActionView::Get(plan.fallback),
            ),
            _ => (FetchStage::Done, FetchActionView::Stop),
        },
        FetchStage::Fallback => match event {
            FetchEvent::Response(true) => (FetchStage::Done, FetchActionView::Store(plan.target)),
            FetchEvent::Response(false) => (FetchStage::Done, FetchActionView::Warn(plan.fallback)),
            _ => (FetchStage::Done, FetchActionView::Stop),
        },
        FetchStage::Done => (FetchStage::Done, FetchActionView::Stop),
    }
}

/// The step of a fetch.
pub fn fetch_step(plan: &LibraryFetch, stage: FetchStage, event: FetchEvent) -> (r: (
    FetchStage,
    FetchAction,
))
    ensures
        (r.0, r.1@) == fetch_step_of(plan@, stage, event),
{
    match stage {
        FetchStage::Start => (FetchStage::Checking, FetchAction::Check(plan.target.clone())),
        FetchStage::Checking => match event {
            FetchEvent::Exists(false) => (
                FetchStage::Primary,
                FetchAction::Get(plan.primary.clone()),
            ),
            _ => (FetchStage::Done, FetchAction::Stop),
        },
        FetchStage::Primary => match event {
            FetchEvent::Response(true) => (
                FetchStage::Done,
                FetchAction::Store(plan.target.clone()),
            ),
            FetchEvent::Response(false) => (
                FetchStage::Fallback,
                FetchAction::Get(plan.fallback.clone()),
            ),
            _ => (FetchStage::Done, FetchAction::Stop),
        },
        FetchStage::Fallback => match event {
            FetchEvent::Response(true) => (
                FetchStage::Done,
                FetchAction::Store(plan.target.clone()),
            ),
            FetchEvent::Response(false) => (
                FetchStage::Done,
                FetchAction::Warn(plan.fallback.clone()),
            ),
            _ => (FetchStage::Done, FetchAction::Stop),
        },
        FetchStage::Done => (FetchStage::Done, FetchAction::Stop),
    }
}

/// What the driver of a fetch is told, step by step, while it reports
/// `events` from `stage` on.
pub open spec fn fetch_run_of(plan: FetchView, stage: FetchStage, events: Seq<FetchEvent>) -> Seq<
    FetchActionView,
>
    decreases events.len(),
{
    if events.len() == 0 {
        Seq::empty()
    } else {
        let next = fetch_step_of(plan, stage, events[0]);
        seq![next.1] + fetch_run_of(plan, next.0, events.skip(1))
    }
}

/// Whether `action` asks a host.
pub open spec fn is_request(action: FetchActionView) -> bool {
    action is Get
}

/// Whether `action` writes a file.
pub open spec fn is_write(action: FetchActionView) -> bool {
    action is Store
}

/// A fetch that is over stays over: the driver is told to stop, whatever
/// it reports.
pub proof fn lemma_done_stays(plan: FetchView, events: Seq<FetchEvent>)
    ensures
        fetch_run_of(plan, FetchStage::Done, events).len() == events.len(),
        forall|k: int|
            0 <= k < events.len() ==> #[trigger] fetch_run_of(plan, FetchStage::Done, events)[k]
                == FetchActionView::Stop,
    decreases events.len(),
{
    if events.len() > 0 {
        lemma_done_stays(plan, events.skip(1));
        let all = fetch_run_of(plan, FetchStage::Done, events);
        let rest = fetch_run_of(plan, FetchStage::Done, events.skip(1));
        assert forall|k: int| 0 <= k < events.len() implies #[trigger] all[k]
            == FetchActionView::Stop by {
            if k > 0 {
                assert(all[k] == rest[k - 1]);
            }
        }
    }
}

/// Idempotence: a fetch that finds its file there asks no host and writes
/// nothing. All it does is look; so a second fetch after one that wrote the
/// file makes no request.
pub proof fn lemma_present_is_left(plan: FetchView, events: Seq<FetchEvent>)
    requires
        events.len() >= 2,
        events[1] == FetchEvent::Exists(true),
    ensures
        fetch_run_of(plan, FetchStage::Start, events).len() == events.len(),
        fetch_run_of(plan, FetchStage::Start, events)[0] == FetchActionView::Check(plan.target),
        forall|k: int|
            1 <= k < events.len() ==> #[trigger] fetch_run_of(plan, FetchStage::Start, events)[k]
                == FetchActionView::Stop,
        forall|k: int|
            0 <= k < events.len() ==> !is_request(
                #[trigger] fetch_run_of(plan, FetchStage::Start, events)[k],
            ) && !is_write(fetch_run_of(plan, FetchStage::Start, events)[k]),
{
    let all = fetch_run_of(plan, FetchStage::Start, events);
    let second = fetch_run_of(plan, FetchStage::Checking, events.skip(1));
    let rest = fetch_run_of(plan, FetchStage::Done, events.skip(1).skip(1));
    lemma_done_stays(plan, events.skip(1).skip(1));
    assert(events.skip(1)[0] == events[1]);
    assert(all == seq![FetchActionView::Check(plan.target)] + second);
    assert(second == seq![FetchActionView::Stop] + rest);
    assert forall|k: int| 1 <= k < events.len() implies #[trigger] all[k]
        == FetchActionView::Stop by {
        assert(all[k] == second[k - 1]);
        if k > 1 {
            assert(second[k - 1] == rest[k - 2]);
        }
    }
    assert forall|k: int| 0 <= k < events.len() implies !is_request(#[trigger] all[k])
        && !is_write(all[k]) by {
        if k >= 1 {
            assert(all[k] == FetchActionView::Stop);
        }
    }
}

/// Mirror fallback, the next address: when the mirror answers with
/// anything but success, the fallback host is asked next, and for the same
/// path below it as the mirror was asked for below its own address.
pub proof fn lemma_fallback_is_next(name: Seq<char>, lib: Seq<char>, mirror: Seq<char>)
    requires
        is_coordinate(name),
    ensures
        fetch_of(name, lib, mirror) is Ok,
        fetch_of(name, lib, mirror)->Ok_0.primary == url_of(mirror, maven_path(name)),
        fetch_of(name, lib, mirror)->Ok_0.fallback == url_of(fallback_host(), maven_path(name)),
        fetch_step_of(
            fetch_of(name, lib, mirror)->Ok_0,
            FetchStage::Primary,
            FetchEvent::Response(false),
        ) == (
            FetchStage::Fallback,
            FetchActionView::Get(url_of(fallback_host(), maven_path(name))),
        ),
{
}

/// Mirror fallback, both hosts failing: the file is looked for, the mirror
/// is asked, the fallback host is asked, the driver is told to warn, and
/// that is all. Nothing is written, and the fetch ends without a fault.
pub proof fn lemma_both_fail(plan: FetchView, events: Seq<FetchEvent>)
    requires
        events.len() >= 4,
        events[1] == FetchEvent::Exists(false),
        events[2] == FetchEvent::Response(false),
        events[3] == FetchEvent::Response(false),
    ensures
        fetch_run_of(plan, FetchStage::Start, events).len() == events.len(),
        fetch_run_of(plan, FetchStage::Start, events)[0] == FetchActionView::Check(plan.target),
        fetch_run_of(plan, FetchStage::Start, events)[1] == FetchActionView::Get(plan.primary),
        fetch_run_of(plan, FetchStage::Start, events)[2] == FetchActionView::Get(plan.fallback),
        fetch_run_of(plan, FetchStage::Start, events)[3] == FetchActionView::Warn(plan.fallback),
        forall|k: int|
            4 <= k < events.len() ==> #[trigger] fetch_run_of(plan, FetchStage::Start, events)[k]
                == FetchActionView::Stop,
        forall|k: int|
            0 <= k < events.len() ==> !is_write(
                #[trigger] fetch_run_of(plan, FetchStage::Start, events)[k],
            ),
{
    let e1 = events.skip(1);
    let e2 = e1.skip(1);
    let e3 = e2.skip(1);
    let e4 = e3.skip(1);
    let all = fetch_run_of(plan, FetchStage::Start, events);
    let r1 = fetch_run_of(plan, FetchStage::Checking, e1);
    let r2 = fetch_run_of(plan, FetchStage::Primary, e2);
    let r3 = fetch_run_of(plan, FetchStage::Fallback, e3);
    let r4 = fetch_run_of(plan, FetchStage::Done, e4);
    lemma_done_stays(plan, e4);
    assert(e1[0] == events[1]);
    assert(e2[0] == events[2]);
    assert(e3[0] == events[3]);
    assert(all == seq![FetchActionView::Check(plan.target)] + r1);
    assert(r1 == seq![FetchActionView::Get(plan.primary)] + r2);
    assert(r2 == seq![FetchActionView::Get(plan.fallback)] + r3);
    assert(r3 == seq![FetchActionView::Warn(plan.fallback)] + r4);
    assert(all =~= seq![
        FetchActionView::Check(plan.target),
        FetchActionView::Get(plan.primary),
        FetchActionView::Get(plan.fallback),
        FetchActionView::Warn(plan.fallback),
    ] + r4);
    assert forall|k: int| 4 <= k < events.len() implies #[trigger] all[k]
        == FetchActionView::Stop by {
        assert(all[k] == r4[k - 4]);
    }
    assert forall|k: int| 0 <= k < events.len() implies !is_write(#[trigger] all[k]) by {
        if k >= 4 {
            assert(all[k] == FetchActionView::Stop);
        }
    }
}

} // verus!
