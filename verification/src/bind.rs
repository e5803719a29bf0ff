//! Bind-group construction stage: the frame-tagged publication of the
//! bind group built over this frame's packed uniform buffer.
//!
//! The published resource is a single slot overwritten wholesale each
//! frame that packs at least one record.  Readers always ask for the
//! binding of a given frame; a binding left over from an earlier frame is
//! structurally invisible to them, so stale bind groups can never be used.

use vstd::prelude::*;
use crate::prepare::PreparedUniforms;
use crate::extract::distinct_keys;

verus! {

/// The bind group published for one frame: the frame it belongs to, the
/// opaque identity of the device bind-group object built over that frame's
/// buffer, and the per-entity dynamic offsets valid with it.
pub struct FrameBinding {
    pub frame: u64,
    pub group_id: u64,
    pub offsets: Vec<(u64, usize)>,
}

/// Single-slot, frame-tagged cache holding the most recently published
/// bind group of one pipeline.  Absent until the first frame that packs a
/// record; afterwards it always holds the newest publication, which only
/// counts for the frame it is tagged with.
pub struct BindGroupCache {
    current: Option<FrameBinding>,
}

impl BindGroupCache {
    /// The publication the cache holds, if any.
    pub closed spec fn spec_current(&self) -> Option<FrameBinding> {
        self.current
    }

    /// Whether a bind group has been published for `frame` itself.
    pub open spec fn published_for(&self, frame: u64) -> bool {
        match self.spec_current() {
            Some(b) => b.frame == frame,
            None => false,
        }
    }

    /// The published bind group's identity; meaningful while a publication
    /// is held.
    pub open spec fn current_group(&self) -> u64 {
        match self.spec_current() {
            Some(b) => b.group_id,
            None => 0,
        }
    }

    /// The published offset table; empty while no publication is held.
    pub open spec fn current_offsets(&self) -> Seq<(u64, usize)> {
        match self.spec_current() {
            Some(b) => b.offsets@,
            None => Seq::empty(),
        }
    }

    /// Well-formed: a published offset table lists every entity once.
    pub open spec fn wf(&self) -> bool {
        distinct_keys(self.current_offsets())
    }

    pub fn new() -> (c: Self)
        ensures
            c.spec_current() is None,
            c.wf(),
            forall|f: u64| !c.published_for(f),
    {
        BindGroupCache { current: None }
    }

    /// The binding published for `frame`, and nothing older: a publication
    /// tagged with any other frame is treated as absent.
    pub fn current_for_frame(&self, frame: u64) -> (r: Option<&FrameBinding>)
        ensures
            match r {
                Some(b) => {
                    &&& self.published_for(frame)
                    &&& b.frame == frame
                    &&& b.group_id == self.current_group()
                    &&& b.offsets@ == self.current_offsets()
                },
                None => !self.published_for(frame),
            },
    {
        match &self.current {
            Some(b) => {
                if b.frame == frame {
                    Some(b)
                } else {
                    None
                }
            },
            None => None,
        }
    }
}

/// Exact copy of an offset table, entry for entry.
#[verifier::loop_isolation(false)]
fn copy_offsets(offsets: &Vec<(u64, usize)>) -> (r: Vec<(u64, usize)>)
    ensures
        r@ == offsets@,
{
    let mut r: Vec<(u64, usize)> = Vec::new();
    let mut i: usize = 0;
    while i < offsets.len()
        invariant
            i <= offsets@.len(),
            r@ == offsets@.take(i as int),
        decreases offsets@.len() - i,
    {
        r.push(offsets[i]);
        proof {
            assert(r@ =~= offsets@.take(i + 1));
        }
        i = i + 1;
    }
    proof {
        assert(offsets@.take(offsets@.len() as int) =~= offsets@);
    }
    r
}

/// Bind-group construction for the animation pipeline: at most once per
/// frame, after preparation.  When this frame packed at least one animation
/// uniform, a bind group with identity `group_id` is built over the
/// frame's buffer and published together with the frame's offsets; when the
/// frame packed nothing, nothing is published and the cache is left as it
/// was — whatever it held counts for an earlier frame only.
pub fn queue_outline_animation_bind_group(
    cache: &mut BindGroupCache,
    prepared: &Option<PreparedUniforms>,
    frame: u64,
    group_id: u64,
)
    requires
        old(cache).wf(),
        !old(cache).published_for(frame),
        match *prepared {
            Some(p) => distinct_keys(p.offsets@),
            None => true,
        },
    ensures
        final(cache).wf(),
        match *prepared {
            Some(p) => {
                &&& final(cache).published_for(frame)
                &&& final(cache).current_group() == group_id
                &&& final(cache).current_offsets() == p.offsets@
            },
            None => {
                &&& *final(cache) == *old(cache)
                &&& !final(cache).published_for(frame)
            },
        },
{
    match prepared {
        Some(p) => {
            let offsets = copy_offsets(&p.offsets);
            cache.current = Some(FrameBinding { frame, group_id, offsets });
        },
        None => {},
    }
}

/// Bind-group construction for the deformation pipeline; the deform
/// pipeline keeps its own cache, disjoint from the animation one.
pub fn prepare_outline_deform_bind_group(
    cache: &mut BindGroupCache,
    prepared: &Option<PreparedUniforms>,
    frame: u64,
    group_id: u64,
)
    requires
        old(cache).wf(),
        !old(cache).published_for(frame),
        match *prepared {
            Some(p) => distinct_keys(p.offsets@),
            None => true,
        },
    ensures
        final(cache).wf(),
        match *prepared {
            Some(p) => {
                &&& final(cache).published_for(frame)
                &&& final(cache).current_group() == group_id
                &&& final(cache).current_offsets() == p.offsets@
            },
            None => {
                &&& *final(cache) == *old(cache)
                &&& !final(cache).published_for(frame)
            },
        },
{
    match prepared {
        Some(p) => {
            let offsets = copy_offsets(&p.offsets);
            cache.current = Some(FrameBinding { frame, group_id, offsets });
        },
        None => {},
    }
}

} // verus!
