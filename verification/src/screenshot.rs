//! Screenshots: which sandboxes are to be captured and how, and the cache of
//! the images last captured.

use vstd::hash_map::StringHashMap;
use vstd::prelude::*;
use vstd::string::*;

use crate::listing::{index_of, lemma_index_of_found, lemma_index_of_position};
use crate::record::{Sandbox, SandboxView};
use crate::state::{views_of, ManagerState};

verus! {

/// Where the image of a sandbox is taken from.
#[derive(Debug)]
pub enum CaptureSource {
    /// The virtual display with this number.
    Display { display_num: u32 },
    /// The control socket of a virtual machine at this path.
    ControlSocket { path: String },
}

/// The mathematical value of a [`CaptureSource`].
pub enum CaptureSourceView {
    Display { display_num: u32 },
    ControlSocket { path: Seq<char> },
}

impl View for CaptureSource {
    type V = CaptureSourceView;

    open spec fn view(&self) -> CaptureSourceView {
        match self {
            CaptureSource::Display { display_num } => CaptureSourceView::Display {
                display_num: *display_num,
            },
            CaptureSource::ControlSocket { path } => CaptureSourceView::ControlSocket {
                path: path@,
            },
        }
    }
}

/// One sandbox to capture: its id, and where its image is taken from.
#[derive(Debug)]
pub struct CaptureTarget {
    pub id: String,
    pub source: CaptureSource,
}

/// The mathematical value of a [`CaptureTarget`].
pub struct CaptureTargetView {
    pub id: Seq<char>,
    pub source: CaptureSourceView,
}

impl View for CaptureTarget {
    type V = CaptureTargetView;

    open spec fn view(&self) -> CaptureTargetView {
        CaptureTargetView { id: self.id@, source: self.source@ }
    }
}

/// Where the image of the sandbox of record `r` is taken from: its display
/// where it has one, else its control socket where it has one, else nowhere.
pub open spec fn capture_source_of(r: SandboxView) -> Option<CaptureSourceView> {
    match (r.display_num, r.qemu_qmp_socket) {
        (Some(display_num), _) => Some(CaptureSourceView::Display { display_num }),
        (None, Some(path)) => Some(CaptureSourceView::ControlSocket { path }),
        (None, None) => None,
    }
}

/// The view of an optional source.
pub open spec fn source_view(source: Option<CaptureSource>) -> Option<CaptureSourceView> {
    match source {
        Some(s) => Some(s@),
        None => None,
    }
}

/// `t` is to be captured in the registry `m`: its id is that of a `Running`
/// record, and its source is where the image of that record is taken from.
pub open spec fn is_target(m: Map<Seq<char>, SandboxView>, t: CaptureTargetView) -> bool {
    &&& m.contains_key(t.id)
    &&& m[t.id].running()
    &&& capture_source_of(m[t.id]) == Some(t.source)
}

/// The views of a sequence of targets, in the same order.
pub open spec fn target_views(targets: Seq<CaptureTarget>) -> Seq<CaptureTargetView> {
    targets.map_values(|t: CaptureTarget| t@)
}

/// Where the image of `sandbox` is taken from.
pub fn capture_source(sandbox: &Sandbox) -> (r: Option<CaptureSource>)
    ensures
        source_view(r) == capture_source_of(sandbox@),
{
    match sandbox.display_num {
        Some(display_num) => Some(CaptureSource::Display { display_num }),
        None => match &sandbox.qemu_qmp_socket {
            Some(path) => Some(CaptureSource::ControlSocket { path: path.clone() }),
            None => None,
        },
    }
}

/// The sandboxes to capture: every `Running` record that has a display or a
/// control socket, and no other.
pub fn capture_targets(state: &ManagerState) -> (r: Vec<CaptureTarget>)
    requires
        state.wf(),
    ensures
        forall|t: CaptureTargetView| #[trigger]
            target_views(r@).contains(t) <==> is_target(state@.sandboxes, t),
{
    let records = state.values();
    let ghost rs = views_of(records@);
    let mut out: Vec<CaptureTarget> = Vec::new();
    let mut i: usize = 0;
    while i < records.len()
        invariant
            i <= records.len(),
            rs == views_of(records@),
            forall|t: CaptureTargetView| #[trigger]
                target_views(out@).contains(t) <==> exists|j: int|
                    0 <= j < i && (#[trigger] rs[j]).id == t.id && rs[j].running()
                        && capture_source_of(rs[j]) == Some(t.source),
        decreases records.len() - i,
    {
        let sandbox = &records[i];
        if sandbox.is_running() {
            match capture_source(sandbox) {
                Some(source) => {
                    let ghost prior = target_views(out@);
                    let target = CaptureTarget { id: sandbox.id.clone(), source };
                    out.push(target);
                    proof {
                        let now = target_views(out@);
                        assert(now =~= prior.push(target@));
                        assert forall|t: CaptureTargetView| #[trigger]
                            now.contains(t) <==> exists|j: int|
                                0 <= j < i + 1 && (#[trigger] rs[j]).id == t.id && rs[j].running()
                                    && capture_source_of(rs[j]) == Some(t.source) by {
                            if now.contains(t) {
                                let p = choose|p: int| 0 <= p < now.len() && now[p] == t;
                                if p < prior.len() {
                                    assert(prior[p] == t);
                                    assert(prior.contains(t));
                                } else {
                                    assert(rs[i as int].id == t.id);
                                }
                            }
                            if exists|j: int|
                                0 <= j < i + 1 && (#[trigger] rs[j]).id == t.id && rs[j].running()
                                    && capture_source_of(rs[j]) == Some(t.source) {
                                let j = choose|j: int|
                                    0 <= j < i + 1 && (#[trigger] rs[j]).id == t.id
                                        && rs[j].running() && capture_source_of(rs[j]) == Some(
                                        t.source,
                                    );
                                if j < i {
                                    assert(prior.contains(t));
                                    let p = choose|p: int| 0 <= p < prior.len() && prior[p] == t;
                                    assert(now[p] == t);
                                } else {
                                    assert(now[prior.len() as int] == t);
                                }
                            }
                        }
                    }
                },
                None => {},
            }
        }
        i = i + 1;
    }
    proof {
        let m = state@.sandboxes;
        assert forall|t: CaptureTargetView| #[trigger]
            target_views(out@).contains(t) <==> is_target(m, t) by {
            if target_views(out@).contains(t) {
                let j = choose|j: int|
                    0 <= j < i && (#[trigger] rs[j]).id == t.id && rs[j].running()
                        && capture_source_of(rs[j]) == Some(t.source);
                lemma_index_of_position(rs, j);
            }
            if is_target(m, t) {
                lemma_index_of_found(rs, t.id);
                let j = index_of(rs, t.id);
                assert(rs[j].id == t.id);
            }
        }
    }
    out
}

/// The images last captured, by sandbox id. A sandbox without an image is a
/// sandbox of which none was captured yet, or one that was stopped.
pub struct ScreenshotCache {
    images: StringHashMap<Vec<u8>>,
}

impl View for ScreenshotCache {
    type V = Map<Seq<char>, Seq<u8>>;

    closed spec fn view(&self) -> Map<Seq<char>, Seq<u8>> {
        self.images@.map_values(|image: Vec<u8>| image@)
    }
}

impl ScreenshotCache {
    /// The cache without images.
    pub fn new() -> (r: Self)
        ensures
            r@ == Map::<Seq<char>, Seq<u8>>::empty(),
    {
        let r = ScreenshotCache { images: StringHashMap::new() };
        assert(r@ =~= Map::<Seq<char>, Seq<u8>>::empty());
        r
    }

    /// Keeps `image` as the image of the sandbox with id `id`, in place of an
    /// earlier one.
    pub fn insert(&mut self, id: String, image: Vec<u8>)
        ensures
            final(self)@ == old(self)@.insert(id@, image@),
    {
        self.images.insert(id, image);
        assert(self@ =~= old(self)@.insert(id@, image@));
    }

    /// Takes in what a capture gave: an image replaces the earlier one; where
    /// the capture gave none, the earlier image stays.
    pub fn store(&mut self, id: String, captured: Option<Vec<u8>>)
        ensures
            final(self)@ == match captured {
                Some(image) => old(self)@.insert(id@, image@),
                None => old(self)@,
            },
    {
        match captured {
            Some(image) => self.insert(id, image),
            None => {},
        }
    }

    /// Drops the image of the sandbox with id `id`, if there is one.
    pub fn remove(&mut self, id: &str)
        ensures
            final(self)@ == old(self)@.remove(id@),
    {
        self.images.remove(id);
        assert(self@ =~= old(self)@.remove(id@));
    }

    /// Whether there is an image of the sandbox with id `id`.
    pub fn contains_key(&self, id: &str) -> (r: bool)
        ensures
            r == self@.contains_key(id@),
    {
        self.images.contains_key(id)
    }

    /// The image of the sandbox with id `id`, if there is one.
    pub fn get(&self, id: &str) -> (r: Option<&Vec<u8>>)
        ensures
            match r {
                Some(image) => self@.contains_key(id@) && image@ == self@[id@],
                None => !self@.contains_key(id@),
            },
    {
        self.images.get(id)
    }
}

} // verus!
