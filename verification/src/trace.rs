//! What holds of every course that a frame can take, whatever the caller
//! reports.
use vstd::prelude::*;
use vstd::multiset::Multiset;
use vstd::seq_lib::group_to_multiset_ensures;
use crate::deband::{spec_texture_params, PlaneGeometry, VideoFormat};
use crate::gpu::{Tex, TexRole};
use crate::pipeline::{
    inv, lemma_linked, plane_fits, slot_linked, spec_adopt, spec_copy_params, spec_deband_frame,
    spec_download_planes, spec_fail, spec_initial, spec_job, spec_next_plane, spec_release,
    spec_row_pitch, spec_step, underway, uploaded, Action, Event, FrameError, Phase, State,
};
use crate::planes::count_selected;
use crate::shaders_root::DebandParams;

verus! {

/// The state that `s` becomes when the caller reports `events`, one after
/// the other.
pub open spec fn run(s: State, events: Seq<Event>) -> State
    decreases events.len(),
{
    if events.len() == 0 {
        s
    } else {
        spec_step(run(s, events.drop_last()), events.last()).0
    }
}

/// What is asked of the caller in answer to the last of `events`.
pub open spec fn answer(s: State, events: Seq<Event>) -> Action {
    spec_step(run(s, events.drop_last()), events.last()).1
}

/// The textures that a pipeline in state `s` holds.
pub open spec fn held(s: State) -> Multiset<Tex> {
    s.texes_in.to_multiset().add(s.texes_out.to_multiset())
}

/// The textures that the caller has handed over by the end of `events` and
/// has not been asked to destroy before the last answer.
///
/// A texture is handed over when a report brings it. Where the report
/// answers a request for an upload, the texture that it brings takes the
/// place of the texture that was to be uploaded to.
pub open spec fn handed_over(s: State, events: Seq<Event>) -> Multiset<Tex>
    decreases events.len(), 0nat,
{
    if events.len() == 0 {
        Multiset::empty()
    } else {
        let before = outstanding(s, events.drop_last());
        match events.last() {
            Event::Texture(Some(tex)) => before.insert(tex),
            Event::Uploaded(Some(up)) => if events.len() > 1 {
                match answer(s, events.drop_last()) {
                    Action::UploadPlane { tex, data } => before.remove(tex).insert(up.tex),
                    _ => before.insert(up.tex),
                }
            } else {
                before.insert(up.tex)
            },
            _ => before,
        }
    }
}

/// The textures that the caller has handed over by the end of `events` and
/// has not been asked to destroy, the last answer included.
pub open spec fn outstanding(s: State, events: Seq<Event>) -> Multiset<Tex>
    decreases events.len(), 1nat,
{
    if events.len() == 0 {
        Multiset::empty()
    } else {
        match answer(s, events) {
            Action::Destroy(tex) => handed_over(s, events).remove(tex),
            _ => handed_over(s, events),
        }
    }
}

proof fn lemma_release_inv(s: State)
    requires
        s.dst_img.len() == s.src_img.len(),
    ensures
        inv(spec_release(s).0),
{
}

proof fn lemma_fail_inv(s: State, e: FrameError)
    requires
        s.dst_img.len() == s.src_img.len(),
    ensures
        inv(spec_fail(s, e).0),
{
}

proof fn lemma_download_planes_inv(s: State)
    requires
        underway(s, 0, 0, 0),
    ensures
        inv(spec_download_planes(s).0),
{
    let post = spec_download_planes(s).0;
    if post.phase == Phase::Downloading {
        lemma_linked(s, post);
    }
}

proof fn lemma_deband_frame_inv(s: State)
    requires
        underway(s, 0, 0, 0),
    ensures
        inv(spec_deband_frame(s).0),
{
    if s.slot >= s.src_img.len() {
        let first = State { slot: 0, ..s };
        lemma_linked(s, first);
        lemma_download_planes_inv(first);
    } else {
        lemma_linked(s, spec_deband_frame(s).0);
    }
}

proof fn lemma_next_plane_inv(s: State)
    requires
        underway(s, 0, 0, 0),
        s.plane <= s.process.len(),
        s.slot == 0,
    ensures
        inv(spec_next_plane(s).0),
{
    if s.plane >= s.process.len() {
        let first = State { slot: 0, ..s };
        lemma_linked(s, first);
        lemma_deband_frame_inv(first);
    } else {
        lemma_linked(s, spec_next_plane(s).0);
    }
}

/// A step keeps what holds of every state that a pipeline reaches. Among
/// it: the destination frame descriptor has as many planes as the source
/// frame descriptor.
pub proof fn lemma_step_inv(s: State, e: Event)
    requires
        inv(s),
    ensures
        inv(spec_step(s, e).0),
{
    let post = spec_step(s, e).0;
    match (s.phase, e) {
        (Phase::Idle, Event::Start) => {
            if s.error.is_some() {
                lemma_release_inv(s);
            } else {
                lemma_next_plane_inv(s);
            }
        },
        (Phase::Copying, Event::Copied) => {
            let next = State { plane: s.plane + 1, ..s };
            lemma_linked(s, next);
            lemma_next_plane_inv(next);
        },
        (Phase::Resolving, Event::Format(Some(format))) => {
            lemma_linked(s, post);
        },
        (Phase::Resolving, Event::Format(None)) => {
            lemma_fail_inv(s, FrameError::Format);
        },
        (Phase::CreatingInput(format), Event::Texture(Some(tex))) => {
            let held = State { texes_in: s.texes_in.push(tex), ..s };
            if !tex.spec_params().serves(TexRole::Input) {
                lemma_fail_inv(held, FrameError::Usage);
            } else {
                lemma_linked(s, post);
            }
        },
        (Phase::CreatingInput(_), Event::Texture(None)) => {
            lemma_fail_inv(s, FrameError::Texture);
        },
        (Phase::CreatingOutput, Event::Texture(Some(tex))) => {
            let held = State { texes_out: s.texes_out.push(tex), ..s };
            if !tex.spec_params().serves(TexRole::Output) {
                lemma_fail_inv(held, FrameError::Usage);
            } else {
                lemma_linked(s, post);
            }
        },
        (Phase::CreatingOutput, Event::Texture(None)) => {
            lemma_fail_inv(s, FrameError::Texture);
        },
        (Phase::Uploading, Event::Uploaded(Some(up))) => {
            let held = State { texes_in: s.texes_in.update(s.texes_in.len() - 1, up.tex), ..s };
            if !up.tex.spec_params().sampleable {
                lemma_fail_inv(held, FrameError::Usage);
            } else {
                let next = uploaded(s, up);
                let k = s.src_img.len() as int;
                assert forall|j: int| 0 <= j < next.src_img.len() implies slot_linked(next, j) by {
                    if j < k {
                        assert(slot_linked(s, j));
                    }
                }
                lemma_next_plane_inv(next);
            }
        },
        (Phase::Uploading, Event::Uploaded(None)) => {
            lemma_fail_inv(s, FrameError::Upload);
        },
        (Phase::Beginning, Event::Shader(shader)) => {
            if shader == 0 {
                lemma_fail_inv(s, FrameError::Shader);
            } else {
                assert(slot_linked(s, s.slot as int));
                lemma_linked(s, post);
            }
        },
        (Phase::Dispatching, Event::Dispatched(true)) => {
            let next = State { slot: s.slot + 1, ..s };
            lemma_linked(s, next);
            lemma_deband_frame_inv(next);
        },
        (Phase::Dispatching, Event::Dispatched(false)) => {
            lemma_fail_inv(s, FrameError::Dispatch);
        },
        (Phase::Downloading, Event::Downloaded(true)) => {
            let next = State { slot: s.slot + 1, ..s };
            lemma_linked(s, next);
            lemma_download_planes_inv(next);
        },
        (Phase::Downloading, Event::Downloaded(false)) => {
            lemma_fail_inv(s, FrameError::Download);
        },
        (Phase::Destroying, Event::Destroyed) => {
            lemma_release_inv(s);
        },
        _ => {
            lemma_fail_inv(spec_adopt(s, e), FrameError::Protocol);
        },
    }
}

/// What a pipeline in state `s` holds once the caller has reported `e`,
/// before anything is given up: a texture that the report brings is added,
/// and where the report answers a request for an upload, the texture that
/// was to be uploaded to is gone.
pub open spec fn taken(s: State, e: Event) -> Multiset<Tex> {
    match e {
        Event::Texture(Some(tex)) => held(s).insert(tex),
        Event::Uploaded(Some(up)) => if s.phase == Phase::Uploading {
            held(s).remove(s.texes_in.last()).insert(up.tex)
        } else {
            held(s).insert(up.tex)
        },
        _ => held(s),
    }
}

proof fn lemma_release_held(s: State)
    ensures
        match spec_release(s).1 {
            Action::Destroy(tex) => held(s).count(tex) > 0 && held(spec_release(s).0) == held(
                s,
            ).remove(tex),
            Action::Finish(_) => held(s) == Multiset::<Tex>::empty() && held(spec_release(s).0)
                == held(s),
            _ => false,
        },
        spec_release(s).0.phase != Phase::Uploading,
{
    broadcast use group_to_multiset_ensures;

    let post = spec_release(s).0;
    if s.texes_in.len() > 0 {
        assert(s.texes_in.contains(s.texes_in[0]));
        assert(held(post) =~= held(s).remove(s.texes_in[0]));
    } else if s.texes_out.len() > 0 {
        assert(s.texes_out.contains(s.texes_out[0]));
        assert(held(post) =~= held(s).remove(s.texes_out[0]));
    } else {
        assert(held(s) =~= Multiset::<Tex>::empty());
    }
}

/// What a step does to the textures that the pipeline holds: it takes what
/// the report brings, and gives up exactly the texture that it asks to
/// destroy, which it held. It asks to finish only when it holds nothing.
/// It waits for an upload exactly when it has asked for one, to the last
/// input texture it holds.
pub proof fn lemma_step_held(s: State, e: Event)
    requires
        inv(s),
    ensures
        match spec_step(s, e).1 {
            Action::Destroy(tex) => taken(s, e).count(tex) > 0 && held(spec_step(s, e).0) == taken(
                s,
                e,
            ).remove(tex),
            Action::Finish(_) => taken(s, e) == Multiset::<Tex>::empty() && held(
                spec_step(s, e).0,
            ) == Multiset::<Tex>::empty(),
            Action::UploadPlane { tex, data } => {
                &&& held(spec_step(s, e).0) == taken(s, e)
                &&& spec_step(s, e).0.phase == Phase::Uploading
                &&& tex == spec_step(s, e).0.texes_in.last()
            },
            _ => held(spec_step(s, e).0) == taken(s, e),
        },
        spec_step(s, e).0.phase == Phase::Uploading ==> spec_step(s, e).1 is UploadPlane,
{
    broadcast use group_to_multiset_ensures;

    let post = spec_step(s, e).0;
    match (s.phase, e) {
        (Phase::Idle, Event::Start) => {
            if s.error.is_some() {
                lemma_release_held(s);
            } else {
                lemma_from_held(s);
            }
        },
        (Phase::Copying, Event::Copied) => {
            lemma_from_held(State { plane: s.plane + 1, ..s });
        },
        (Phase::Resolving, Event::Format(Some(format))) => {},
        (Phase::Resolving, Event::Format(None)) => {
            lemma_fail_held(s, FrameError::Format);
        },
        (Phase::CreatingInput(format), Event::Texture(Some(tex))) => {
            let held_state = State { texes_in: s.texes_in.push(tex), ..s };
            assert(held(held_state) =~= held(s).insert(tex));
            if !tex.spec_params().serves(TexRole::Input) {
                lemma_fail_held(held_state, FrameError::Usage);
            }
        },
        (Phase::CreatingInput(_), Event::Texture(None)) => {
            lemma_fail_held(s, FrameError::Texture);
        },
        (Phase::CreatingOutput, Event::Texture(Some(tex))) => {
            let held_state = State { texes_out: s.texes_out.push(tex), ..s };
            assert(held(held_state) =~= held(s).insert(tex));
            if !tex.spec_params().serves(TexRole::Output) {
                lemma_fail_held(held_state, FrameError::Usage);
            }
        },
        (Phase::CreatingOutput, Event::Texture(None)) => {
            lemma_fail_held(s, FrameError::Texture);
        },
        (Phase::Uploading, Event::Uploaded(Some(up))) => {
            let last = s.texes_in.len() - 1;
            let swapped = s.texes_in.update(last, up.tex);
            assert(swapped =~= s.texes_in.remove(last).push(up.tex));
            assert(swapped.to_multiset() =~= s.texes_in.to_multiset().remove(
                s.texes_in.last(),
            ).insert(up.tex));
            assert(s.texes_in.contains(s.texes_in.last()));
            let held_state = State { texes_in: swapped, ..s };
            assert(held(held_state) =~= taken(s, e));
            if !up.tex.spec_params().sampleable {
                lemma_fail_held(held_state, FrameError::Usage);
            } else {
                assert(held(uploaded(s, up)) =~= taken(s, e));
                lemma_from_held(uploaded(s, up));
            }
        },
        (Phase::Uploading, Event::Uploaded(None)) => {
            lemma_fail_held(s, FrameError::Upload);
        },
        (Phase::Beginning, Event::Shader(shader)) => {
            if shader == 0 {
                lemma_fail_held(s, FrameError::Shader);
            }
        },
        (Phase::Dispatching, Event::Dispatched(true)) => {
            lemma_from_held(State { slot: s.slot + 1, ..s });
        },
        (Phase::Dispatching, Event::Dispatched(false)) => {
            lemma_fail_held(s, FrameError::Dispatch);
        },
        (Phase::Downloading, Event::Downloaded(true)) => {
            lemma_from_held(State { slot: s.slot + 1, ..s });
        },
        (Phase::Downloading, Event::Downloaded(false)) => {
            lemma_fail_held(s, FrameError::Download);
        },
        (Phase::Destroying, Event::Destroyed) => {
            lemma_release_held(s);
        },
        _ => {
            let adopted = spec_adopt(s, e);
            assert(held(adopted) =~= taken(s, e));
            lemma_fail_held(adopted, FrameError::Protocol);
        },
    }
}

proof fn lemma_fail_held(s: State, e: FrameError)
    ensures
        match spec_fail(s, e).1 {
            Action::Destroy(tex) => held(s).count(tex) > 0 && held(spec_fail(s, e).0) == held(
                s,
            ).remove(tex),
            Action::Finish(_) => held(s) == Multiset::<Tex>::empty() && held(spec_fail(s, e).0)
                == held(s),
            _ => false,
        },
        spec_fail(s, e).0.phase != Phase::Uploading,
{
    let failed = State {
        error: Some(
            match s.error {
                Some(first) => first,
                None => e,
            },
        ),
        ..s
    };
    lemma_release_held(failed);
}

/// Going on with the next plane, the next deband or the next download asks
/// for no upload and gives up a texture only to have it destroyed.
proof fn lemma_from_held(s: State)
    ensures
        held_after(s, spec_next_plane(s)),
        held_after(s, spec_deband_frame(s)),
        held_after(s, spec_download_planes(s)),
{
    lemma_release_held(s);
    lemma_release_held(State { slot: 0, ..s });
    lemma_fail_held(s, FrameError::RowPitch);
    lemma_fail_held(State { slot: 0, ..s }, FrameError::RowPitch);
}

/// From state `s`, which waits for no upload, `next` gives up a texture
/// only to have it destroyed, finishes only when nothing is held, and asks
/// for no upload.
spec fn held_after(s: State, next: (State, Action)) -> bool {
    &&& match next.1 {
        Action::Destroy(tex) => held(s).count(tex) > 0 && held(next.0) == held(s).remove(tex),
        Action::Finish(_) => held(s) == Multiset::<Tex>::empty() && held(next.0) == held(s),
        Action::UploadPlane { tex, data } => false,
        _ => held(next.0) == held(s),
    }
    &&& next.0.phase != Phase::Uploading
}

/// After any reports to a pipeline that started out holding nothing, the
/// pipeline holds exactly the textures that were handed over and are
/// outstanding.
pub proof fn lemma_outstanding_held(s: State, events: Seq<Event>)
    requires
        inv(s),
        s.phase == Phase::Idle,
    ensures
        inv(run(s, events)),
        outstanding(s, events) == held(run(s, events)),
        events.len() > 0 ==> handed_over(s, events) == taken(
            run(s, events.drop_last()),
            events.last(),
        ),
        events.len() > 0 ==> (run(s, events).phase == Phase::Uploading <==> answer(s, events)
            is UploadPlane),
        events.len() > 0 ==> (answer(s, events) matches Action::UploadPlane { tex, data } ==> tex
            == run(s, events).texes_in.last()),
    decreases events.len(),
{
    broadcast use group_to_multiset_ensures;

    if events.len() == 0 {
        assert(held(s) =~= Multiset::<Tex>::empty());
    } else {
        let prior = events.drop_last();
        lemma_outstanding_held(s, prior);
        let pre = run(s, prior);
        lemma_step_inv(pre, events.last());
        lemma_step_held(pre, events.last());
        if prior.len() == 0 {
            assert(pre.phase == Phase::Idle);
        }
    }
}

/// Every texture that is handed to a pipeline is destroyed exactly once
/// before the frame finishes, whatever the caller reports and whether the
/// frame succeeds or fails: when the pipeline asks to finish the frame, no
/// texture that was handed over is outstanding.
pub proof fn lemma_finish_releases(
    frame_number: i32,
    gpu: usize,
    deband: DebandParams,
    process: Seq<bool>,
    format: VideoFormat,
    src: Seq<PlaneGeometry>,
    dst: Seq<PlaneGeometry>,
    events: Seq<Event>,
)
    requires
        events.len() > 0,
        answer(spec_initial(frame_number, gpu, deband, process, format, src, dst), events)
            is Finish,
    ensures
        outstanding(spec_initial(frame_number, gpu, deband, process, format, src, dst), events)
            == Multiset::<Tex>::empty(),
{
    let s = spec_initial(frame_number, gpu, deband, process, format, src, dst);
    lemma_outstanding_held(s, events);
    lemma_outstanding_held(s, events.drop_last());
    lemma_step_held(run(s, events.drop_last()), events.last());
}

/// A pipeline asks to destroy only a texture that was handed to it and that
/// it has not asked to destroy before.
pub proof fn lemma_destroy_outstanding(
    frame_number: i32,
    gpu: usize,
    deband: DebandParams,
    process: Seq<bool>,
    format: VideoFormat,
    src: Seq<PlaneGeometry>,
    dst: Seq<PlaneGeometry>,
    events: Seq<Event>,
    tex: Tex,
)
    requires
        events.len() > 0,
        answer(spec_initial(frame_number, gpu, deband, process, format, src, dst), events)
            == Action::Destroy(tex),
    ensures
        handed_over(spec_initial(frame_number, gpu, deband, process, format, src, dst), events).count(
            tex,
        ) > 0,
{
    let s = spec_initial(frame_number, gpu, deband, process, format, src, dst);
    lemma_outstanding_held(s, events);
    lemma_outstanding_held(s, events.drop_last());
    lemma_step_held(run(s, events.drop_last()), events.last());
}

/// In every state that a pipeline reaches, the destination frame descriptor
/// has as many planes as the source frame descriptor.
pub proof fn lemma_descriptors_agree(
    frame_number: i32,
    gpu: usize,
    deband: DebandParams,
    process: Seq<bool>,
    format: VideoFormat,
    src: Seq<PlaneGeometry>,
    dst: Seq<PlaneGeometry>,
    events: Seq<Event>,
)
    ensures
        run(
            spec_initial(frame_number, gpu, deband, process, format, src, dst),
            events,
        ).dst_img.len() == run(
            spec_initial(frame_number, gpu, deband, process, format, src, dst),
            events,
        ).src_img.len(),
{
    lemma_outstanding_held(
        spec_initial(frame_number, gpu, deband, process, format, src, dst),
        events,
    );
}

/// Whether `a` is the operation that a pipeline in state `s` waits for the
/// report of.
pub open spec fn awaits(s: State, a: Action) -> bool {
    match s.phase {
        Phase::Idle => false,
        Phase::Copying => a == Action::CopyPlane(
            spec_copy_params(s.format, s.src, s.dst, s.plane as int),
        ),
        Phase::Resolving => a == Action::FindFormat(s.planes_data.last()),
        Phase::CreatingInput(format) => a == (Action::CreateTexture {
            role: TexRole::Input,
            params: spec_texture_params(s.planes_data.last(), format, s.dst).0,
        }),
        Phase::CreatingOutput => a matches Action::CreateTexture { role, params } && role
            == TexRole::Output,
        Phase::Uploading => a == (Action::UploadPlane {
            tex: s.texes_in.last(),
            data: s.planes_data.last(),
        }),
        Phase::Beginning => a == Action::Begin,
        Phase::Dispatching => a matches Action::Dispatch(job) && job == spec_job(
            s,
            job.params.shader,
        ),
        Phase::Downloading => a matches Action::Download(p) && p.tex == s.texes_out[s.slot as int].spec_handle()
            && p.plane == s.dst_img[s.slot as int].component_mapping && Some(p.row_pitch)
            == spec_row_pitch(
            s.dst[p.plane as int].stride,
            s.planes_data[s.slot as int].pixel_stride,
            s.texes_out[s.slot as int].spec_params().format.texel_size,
        ),
        Phase::Destroying => a is Destroy,
        Phase::Done => a == Action::Finish(s.error),
    }
}

proof fn lemma_release_awaits(s: State)
    ensures
        awaits(spec_release(s).0, spec_release(s).1),
{
}

proof fn lemma_fail_awaits(s: State, e: FrameError)
    ensures
        awaits(spec_fail(s, e).0, spec_fail(s, e).1),
{
}

proof fn lemma_download_planes_awaits(s: State)
    ensures
        awaits(spec_download_planes(s).0, spec_download_planes(s).1),
{
    lemma_release_awaits(s);
    lemma_fail_awaits(s, FrameError::RowPitch);
}

proof fn lemma_deband_frame_awaits(s: State)
    ensures
        awaits(spec_deband_frame(s).0, spec_deband_frame(s).1),
{
    lemma_download_planes_awaits(State { slot: 0, ..s });
}

proof fn lemma_next_plane_awaits(s: State)
    ensures
        awaits(spec_next_plane(s).0, spec_next_plane(s).1),
{
    lemma_deband_frame_awaits(State { slot: 0, ..s });
}

/// After every step the pipeline waits for the report of what it asked.
pub proof fn lemma_step_awaits(s: State, e: Event)
    ensures
        awaits(spec_step(s, e).0, spec_step(s, e).1),
{
    match (s.phase, e) {
        (Phase::Idle, Event::Start) => {
            lemma_release_awaits(s);
            lemma_next_plane_awaits(s);
        },
        (Phase::Copying, Event::Copied) => {
            lemma_next_plane_awaits(State { plane: s.plane + 1, ..s });
        },
        (Phase::Resolving, Event::Format(Some(format))) => {},
        (Phase::Resolving, Event::Format(None)) => {
            lemma_fail_awaits(s, FrameError::Format);
        },
        (Phase::CreatingInput(format), Event::Texture(Some(tex))) => {
            lemma_fail_awaits(State { texes_in: s.texes_in.push(tex), ..s }, FrameError::Usage);
        },
        (Phase::CreatingInput(_), Event::Texture(None)) => {
            lemma_fail_awaits(s, FrameError::Texture);
        },
        (Phase::CreatingOutput, Event::Texture(Some(tex))) => {
            lemma_fail_awaits(State { texes_out: s.texes_out.push(tex), ..s }, FrameError::Usage);
        },
        (Phase::CreatingOutput, Event::Texture(None)) => {
            lemma_fail_awaits(s, FrameError::Texture);
        },
        (Phase::Uploading, Event::Uploaded(Some(up))) => {
            lemma_fail_awaits(
                State { texes_in: s.texes_in.update(s.texes_in.len() - 1, up.tex), ..s },
                FrameError::Usage,
            );
            lemma_next_plane_awaits(uploaded(s, up));
        },
        (Phase::Uploading, Event::Uploaded(None)) => {
            lemma_fail_awaits(s, FrameError::Upload);
        },
        (Phase::Beginning, Event::Shader(shader)) => {
            lemma_fail_awaits(s, FrameError::Shader);
        },
        (Phase::Dispatching, Event::Dispatched(true)) => {
            lemma_deband_frame_awaits(State { slot: s.slot + 1, ..s });
        },
        (Phase::Dispatching, Event::Dispatched(false)) => {
            lemma_fail_awaits(s, FrameError::Dispatch);
        },
        (Phase::Downloading, Event::Downloaded(true)) => {
            lemma_download_planes_awaits(State { slot: s.slot + 1, ..s });
        },
        (Phase::Downloading, Event::Downloaded(false)) => {
            lemma_fail_awaits(s, FrameError::Download);
        },
        (Phase::Destroying, Event::Destroyed) => {
            lemma_release_awaits(s);
        },
        _ => {
            lemma_fail_awaits(spec_adopt(s, e), FrameError::Protocol);
        },
    }
}

/// After one report or more, the pipeline waits for the report of what it
/// asked last.
pub proof fn lemma_run_awaits(s: State, events: Seq<Event>)
    requires
        events.len() > 0,
    ensures
        awaits(run(s, events), answer(s, events)),
{
    lemma_step_awaits(run(s, events.drop_last()), events.last());
}

/// Number of planes that a pipeline in state `s` has entered in its frame
/// descriptors if all went well so far: the processed planes among those
/// that it is done with.
pub open spec fn planes_due(s: State) -> nat {
    match s.phase {
        Phase::Idle => 0,
        Phase::Copying => count_selected(s.process.take(s.plane as int)),
        Phase::Resolving => count_selected(s.process.take(s.plane as int)),
        Phase::CreatingInput(_) => count_selected(s.process.take(s.plane as int)),
        Phase::CreatingOutput => count_selected(s.process.take(s.plane as int)),
        Phase::Uploading => count_selected(s.process.take(s.plane as int)),
        _ => count_selected(s.process),
    }
}

/// Unless the frame has failed, the frame descriptors hold the planes that
/// are due, and a plane that is being prepared is one that the filter
/// processes.
pub open spec fn counted(s: State) -> bool {
    &&& s.error.is_none() ==> s.src_img.len() == planes_due(s)
    &&& (s.phase == Phase::Resolving || s.phase is CreatingInput || s.phase
        == Phase::CreatingOutput || s.phase == Phase::Uploading) ==> s.plane < s.process.len()
        && s.process[s.plane as int]
    &&& s.phase == Phase::Copying ==> s.plane < s.process.len() && !s.process[s.plane as int]
}

proof fn lemma_count_take(process: Seq<bool>, plane: int)
    requires
        0 <= plane < process.len(),
    ensures
        count_selected(process.take(plane + 1)) == count_selected(process.take(plane)) + if process[plane] {
            1nat
        } else {
            0nat
        },
        count_selected(process.take(0)) == 0,
        process.take(process.len() as int) == process,
{
    assert(process.take(plane + 1).drop_last() =~= process.take(plane));
    assert(process.take(process.len() as int) =~= process);
}

/// Whether the frame descriptors of `s` hold every plane that the filter
/// processes, unless the frame has failed.
spec fn complete(s: State) -> bool {
    s.error.is_none() ==> s.src_img.len() == count_selected(s.process)
}

proof fn lemma_release_counted(s: State, e: FrameError)
    ensures
        counted(spec_fail(s, e).0),
        complete(s) ==> counted(spec_release(s).0),
{
}

proof fn lemma_download_planes_counted(s: State)
    requires
        complete(s),
    ensures
        counted(spec_download_planes(s).0),
{
    lemma_release_counted(s, FrameError::RowPitch);
}

proof fn lemma_deband_frame_counted(s: State)
    requires
        complete(s),
    ensures
        counted(spec_deband_frame(s).0),
{
    lemma_download_planes_counted(State { slot: 0, ..s });
}

proof fn lemma_next_plane_counted(s: State)
    requires
        s.plane <= s.process.len(),
        s.error.is_none(),
        s.src_img.len() == count_selected(s.process.take(s.plane as int)),
    ensures
        counted(spec_next_plane(s).0),
{
    if s.plane >= s.process.len() {
        assert(s.process.take(s.process.len() as int) =~= s.process);
        lemma_deband_frame_counted(State { slot: 0, ..s });
    }
}

proof fn lemma_step_counted(s: State, e: Event)
    requires
        inv(s),
        counted(s),
    ensures
        counted(spec_step(s, e).0),
{
    if s.plane < s.process.len() {
        lemma_count_take(s.process, s.plane as int);
    }
    match (s.phase, e) {
        (Phase::Idle, Event::Start) => {
            if s.error.is_none() {
                assert(s.process.take(0).len() == 0);
                lemma_next_plane_counted(s);
            } else {
                lemma_release_counted(s, FrameError::Protocol);
            }
        },
        (Phase::Copying, Event::Copied) => {
            lemma_next_plane_counted(State { plane: s.plane + 1, ..s });
        },
        (Phase::Resolving, Event::Format(Some(format))) => {},
        (Phase::Resolving, Event::Format(None)) => {
            lemma_release_counted(s, FrameError::Format);
        },
        (Phase::CreatingInput(format), Event::Texture(Some(tex))) => {
            lemma_release_counted(
                State { texes_in: s.texes_in.push(tex), ..s },
                FrameError::Usage,
            );
        },
        (Phase::CreatingInput(_), Event::Texture(None)) => {
            lemma_release_counted(s, FrameError::Texture);
        },
        (Phase::CreatingOutput, Event::Texture(Some(tex))) => {
            lemma_release_counted(
                State { texes_out: s.texes_out.push(tex), ..s },
                FrameError::Usage,
            );
        },
        (Phase::CreatingOutput, Event::Texture(None)) => {
            lemma_release_counted(s, FrameError::Texture);
        },
        (Phase::Uploading, Event::Uploaded(Some(up))) => {
            if up.tex.spec_params().sampleable {
                lemma_next_plane_counted(uploaded(s, up));
            } else {
                lemma_release_counted(
                    State { texes_in: s.texes_in.update(s.texes_in.len() - 1, up.tex), ..s },
                    FrameError::Usage,
                );
            }
        },
        (Phase::Uploading, Event::Uploaded(None)) => {
            lemma_release_counted(s, FrameError::Upload);
        },
        (Phase::Beginning, Event::Shader(shader)) => {
            lemma_release_counted(s, FrameError::Shader);
        },
        (Phase::Dispatching, Event::Dispatched(true)) => {
            lemma_deband_frame_counted(State { slot: s.slot + 1, ..s });
        },
        (Phase::Dispatching, Event::Dispatched(false)) => {
            lemma_release_counted(s, FrameError::Dispatch);
        },
        (Phase::Downloading, Event::Downloaded(true)) => {
            lemma_download_planes_counted(State { slot: s.slot + 1, ..s });
        },
        (Phase::Downloading, Event::Downloaded(false)) => {
            lemma_release_counted(s, FrameError::Download);
        },
        (Phase::Destroying, Event::Destroyed) => {
            lemma_release_counted(s, FrameError::Protocol);
        },
        _ => {
            lemma_release_counted(spec_adopt(s, e), FrameError::Protocol);
        },
    }
}

/// Where a frame succeeds, both frame descriptors hold exactly the planes
/// that the filter processes.
pub proof fn lemma_descriptors_complete(
    frame_number: i32,
    gpu: usize,
    deband: DebandParams,
    process: Seq<bool>,
    format: VideoFormat,
    src: Seq<PlaneGeometry>,
    dst: Seq<PlaneGeometry>,
    events: Seq<Event>,
)
    ensures
        counted(run(spec_initial(frame_number, gpu, deband, process, format, src, dst), events)),
        events.len() > 0 && answer(
            spec_initial(frame_number, gpu, deband, process, format, src, dst),
            events,
        ) == Action::Finish(None) ==> {
            &&& run(
                spec_initial(frame_number, gpu, deband, process, format, src, dst),
                events,
            ).src_img.len() == count_selected(process)
            &&& run(
                spec_initial(frame_number, gpu, deband, process, format, src, dst),
                events,
            ).dst_img.len() == count_selected(process)
        },
    decreases events.len(),
{
    let s = spec_initial(frame_number, gpu, deband, process, format, src, dst);
    lemma_outstanding_held(s, events);
    lemma_run_fixed(s, events);
    if events.len() > 0 {
        let prior = events.drop_last();
        lemma_descriptors_complete(frame_number, gpu, deband, process, format, src, dst, prior);
        lemma_outstanding_held(s, prior);
        lemma_step_counted(run(s, prior), events.last());
        lemma_run_awaits(s, events);
    }
}

/// The two states are of the same frame: they agree in the number of the
/// frame, the device, the deband parameters, the format, the selected
/// planes and the geometry of the two frames.
pub open spec fn same_frame(a: State, b: State) -> bool {
    &&& a.frame_number == b.frame_number
    &&& a.gpu == b.gpu
    &&& a.deband == b.deband
    &&& a.format == b.format
    &&& a.process == b.process
    &&& a.src == b.src
    &&& a.dst == b.dst
}

proof fn lemma_release_fixed(s: State)
    ensures
        same_frame(spec_release(s).0, s),
{
}

proof fn lemma_fail_fixed(s: State, e: FrameError)
    ensures
        same_frame(spec_fail(s, e).0, s),
{
}

proof fn lemma_download_planes_fixed(s: State)
    ensures
        same_frame(spec_download_planes(s).0, s),
{
    lemma_release_fixed(s);
    lemma_fail_fixed(s, FrameError::RowPitch);
}

proof fn lemma_deband_frame_fixed(s: State)
    ensures
        same_frame(spec_deband_frame(s).0, s),
{
    lemma_download_planes_fixed(State { slot: 0, ..s });
}

proof fn lemma_next_plane_fixed(s: State)
    ensures
        same_frame(spec_next_plane(s).0, s),
{
    lemma_deband_frame_fixed(State { slot: 0, ..s });
}

/// A step leaves the pipeline with the same frame.
pub proof fn lemma_step_fixed(s: State, e: Event)
    ensures
        same_frame(spec_step(s, e).0, s),
{
    match (s.phase, e) {
        (Phase::Idle, Event::Start) => {
            lemma_release_fixed(s);
            lemma_next_plane_fixed(s);
        },
        (Phase::Copying, Event::Copied) => {
            lemma_next_plane_fixed(State { plane: s.plane + 1, ..s });
        },
        (Phase::Resolving, Event::Format(Some(format))) => {},
        (Phase::Resolving, Event::Format(None)) => {
            lemma_fail_fixed(s, FrameError::Format);
        },
        (Phase::CreatingInput(format), Event::Texture(Some(tex))) => {
            lemma_fail_fixed(State { texes_in: s.texes_in.push(tex), ..s }, FrameError::Usage);
        },
        (Phase::CreatingInput(_), Event::Texture(None)) => {
            lemma_fail_fixed(s, FrameError::Texture);
        },
        (Phase::CreatingOutput, Event::Texture(Some(tex))) => {
            lemma_fail_fixed(State { texes_out: s.texes_out.push(tex), ..s }, FrameError::Usage);
        },
        (Phase::CreatingOutput, Event::Texture(None)) => {
            lemma_fail_fixed(s, FrameError::Texture);
        },
        (Phase::Uploading, Event::Uploaded(Some(up))) => {
            lemma_fail_fixed(
                State { texes_in: s.texes_in.update(s.texes_in.len() - 1, up.tex), ..s },
                FrameError::Usage,
            );
            lemma_next_plane_fixed(uploaded(s, up));
        },
        (Phase::Uploading, Event::Uploaded(None)) => {
            lemma_fail_fixed(s, FrameError::Upload);
        },
        (Phase::Beginning, Event::Shader(shader)) => {
            lemma_fail_fixed(s, FrameError::Shader);
        },
        (Phase::Dispatching, Event::Dispatched(true)) => {
            lemma_deband_frame_fixed(State { slot: s.slot + 1, ..s });
        },
        (Phase::Dispatching, Event::Dispatched(false)) => {
            lemma_fail_fixed(s, FrameError::Dispatch);
        },
        (Phase::Downloading, Event::Downloaded(true)) => {
            lemma_download_planes_fixed(State { slot: s.slot + 1, ..s });
        },
        (Phase::Downloading, Event::Downloaded(false)) => {
            lemma_fail_fixed(s, FrameError::Download);
        },
        (Phase::Destroying, Event::Destroyed) => {
            lemma_release_fixed(s);
        },
        _ => {
            lemma_fail_fixed(spec_adopt(s, e), FrameError::Protocol);
        },
    }
}

/// What a pipeline is started with stays as it is, whatever is reported.
pub proof fn lemma_run_fixed(s: State, events: Seq<Event>)
    ensures
        same_frame(run(s, events), s),
    decreases events.len(),
{
    if events.len() > 0 {
        lemma_run_fixed(s, events.drop_last());
        lemma_step_fixed(run(s, events.drop_last()), events.last());
    }
}

/// Every shader that a pipeline asks to run is tagged with the number of
/// its frame, cut to eight bits, and debands with the parameters that the
/// pipeline was started with: what is asked of the device for a frame does
/// not depend on the frames that were processed before it.
pub proof fn lemma_job_of_frame(
    frame_number: i32,
    gpu: usize,
    deband: DebandParams,
    process: Seq<bool>,
    format: VideoFormat,
    src: Seq<PlaneGeometry>,
    dst: Seq<PlaneGeometry>,
    events: Seq<Event>,
)
    requires
        events.len() > 0,
        answer(spec_initial(frame_number, gpu, deband, process, format, src, dst), events)
            is Dispatch,
    ensures
        ({
            let job = answer(
                spec_initial(frame_number, gpu, deband, process, format, src, dst),
                events,
            )->Dispatch_0;
            &&& job.reset.index == frame_number as u8
            &&& job.reset.gpu == gpu
            &&& job.deband == deband
        }),
{
    let s = spec_initial(frame_number, gpu, deband, process, format, src, dst);
    lemma_run_fixed(s, events);
    lemma_run_awaits(s, events);
    lemma_awaited_job(run(s, events), answer(s, events));
}

/// A pipeline that has asked to run a shader waits for its dispatch, and
/// the shader is the deband of the plane that is up.
proof fn lemma_awaited_job(at: State, asked: Action)
    requires
        awaits(at, asked),
        asked is Dispatch,
    ensures
        at.phase == Phase::Dispatching,
        asked->Dispatch_0 == spec_job(at, asked->Dispatch_0.params.shader),
{
}

/// Whether the report hands a texture over.
pub open spec fn brings_texture(e: Event) -> bool {
    e matches Event::Texture(Some(_)) || e matches Event::Uploaded(Some(_))
}

/// A bound on the reports that a pipeline in state `s` takes before the
/// frame is finished: one for each texture that it holds, and for the work
/// that is left if all goes well, nine for each plane that is not begun,
/// what is left to prepare of the plane that is begun, two for each plane
/// that is not debanded, one for each that is not downloaded, and one to
/// finish.
pub open spec fn steps_left(s: State) -> int {
    let n = s.process.len() as int;
    let p = s.plane as int;
    let k = s.src_img.len() as int;
    let slot = s.slot as int;
    s.texes_in.len() + s.texes_out.len() + match s.phase {
        Phase::Idle => 9 * n + 2,
        Phase::Copying => 9 * (n - p - 1) + 3 * k + 2,
        Phase::Resolving => 9 * (n - p - 1) + 3 * k + 10,
        Phase::CreatingInput(_) => 9 * (n - p - 1) + 3 * k + 9,
        Phase::CreatingOutput => 9 * (n - p - 1) + 3 * k + 7,
        Phase::Uploading => 9 * (n - p - 1) + 3 * k + 5,
        Phase::Beginning => 2 * (k - slot) + k + 1,
        Phase::Dispatching => 2 * (k - slot) + k,
        Phase::Downloading => (k - slot) + 1,
        Phase::Destroying => 1,
        Phase::Done => 0,
    }
}

proof fn lemma_release_progress(s: State)
    ensures
        0 <= steps_left(spec_release(s).0) <= s.texes_in.len() + s.texes_out.len(),
{
}

proof fn lemma_fail_progress(s: State, e: FrameError)
    ensures
        0 <= steps_left(spec_fail(s, e).0) <= s.texes_in.len() + s.texes_out.len(),
{
    lemma_release_progress(
        State {
            error: Some(
                match s.error {
                    Some(first) => first,
                    None => e,
                },
            ),
            ..s
        },
    );
}

proof fn lemma_download_planes_progress(s: State)
    requires
        underway(s, 0, 0, 0),
        s.slot <= s.src_img.len(),
    ensures
        0 <= steps_left(spec_download_planes(s).0) <= s.texes_in.len() + s.texes_out.len() + (
        s.src_img.len() - s.slot) + 1,
        s.src_img.len() == 0 ==> steps_left(spec_download_planes(s).0) == 0,
{
    lemma_release_progress(s);
    lemma_fail_progress(s, FrameError::RowPitch);
}

proof fn lemma_deband_frame_progress(s: State)
    requires
        underway(s, 0, 0, 0),
        s.slot <= s.src_img.len(),
    ensures
        0 <= steps_left(spec_deband_frame(s).0) <= s.texes_in.len() + s.texes_out.len() + 2 * (
        s.src_img.len() - s.slot) + s.src_img.len() + 1,
        s.src_img.len() == 0 ==> steps_left(spec_deband_frame(s).0) == 0,
{
    if s.slot >= s.src_img.len() {
        let first = State { slot: 0, ..s };
        lemma_linked(s, first);
        lemma_download_planes_progress(first);
    }
}

proof fn lemma_next_plane_progress(s: State)
    requires
        underway(s, 0, 0, 0),
        s.plane <= s.process.len(),
        s.slot == 0,
    ensures
        0 <= steps_left(spec_next_plane(s).0) <= s.texes_in.len() + s.texes_out.len() + 9 * (
        s.process.len() - s.plane) + 3 * s.src_img.len() + 1,
        s.src_img.len() == 0 && s.plane == s.process.len() ==> steps_left(spec_next_plane(s).0)
            == 0,
{
    if s.plane >= s.process.len() {
        let first = State { slot: 0, ..s };
        lemma_linked(s, first);
        lemma_deband_frame_progress(first);
    }
}

/// Every step brings the end of the frame nearer, whatever the caller
/// reports, as long as it does not hand over a texture while the pipeline
/// is releasing what it holds: the bound on the reports that are left goes
/// down.
pub proof fn lemma_step_progress(s: State, e: Event)
    requires
        inv(s),
        s.phase != Phase::Done,
        s.phase == Phase::Destroying ==> !brings_texture(e),
    ensures
        0 <= steps_left(spec_step(s, e).0) < steps_left(s),
{
    match (s.phase, e) {
        (Phase::Idle, Event::Start) => {
            if s.error.is_some() {
                lemma_release_progress(s);
            } else {
                lemma_next_plane_progress(s);
            }
        },
        (Phase::Copying, Event::Copied) => {
            let next = State { plane: s.plane + 1, ..s };
            lemma_linked(s, next);
            lemma_next_plane_progress(next);
        },
        (Phase::Resolving, Event::Format(Some(format))) => {},
        (Phase::Resolving, Event::Format(None)) => {
            lemma_fail_progress(s, FrameError::Format);
        },
        (Phase::CreatingInput(format), Event::Texture(Some(tex))) => {
            lemma_fail_progress(State { texes_in: s.texes_in.push(tex), ..s }, FrameError::Usage);
        },
        (Phase::CreatingInput(_), Event::Texture(None)) => {
            lemma_fail_progress(s, FrameError::Texture);
        },
        (Phase::CreatingOutput, Event::Texture(Some(tex))) => {
            lemma_fail_progress(
                State { texes_out: s.texes_out.push(tex), ..s },
                FrameError::Usage,
            );
        },
        (Phase::CreatingOutput, Event::Texture(None)) => {
            lemma_fail_progress(s, FrameError::Texture);
        },
        (Phase::Uploading, Event::Uploaded(Some(up))) => {
            let held = State { texes_in: s.texes_in.update(s.texes_in.len() - 1, up.tex), ..s };
            if !up.tex.spec_params().sampleable {
                lemma_fail_progress(held, FrameError::Usage);
            } else {
                let next = uploaded(s, up);
                let k = s.src_img.len() as int;
                assert forall|j: int| 0 <= j < next.src_img.len() implies slot_linked(next, j) by {
                    if j < k {
                        assert(slot_linked(s, j));
                    }
                }
                lemma_next_plane_progress(next);
            }
        },
        (Phase::Uploading, Event::Uploaded(None)) => {
            lemma_fail_progress(s, FrameError::Upload);
        },
        (Phase::Beginning, Event::Shader(shader)) => {
            lemma_fail_progress(s, FrameError::Shader);
        },
        (Phase::Dispatching, Event::Dispatched(true)) => {
            let next = State { slot: s.slot + 1, ..s };
            lemma_linked(s, next);
            lemma_deband_frame_progress(next);
        },
        (Phase::Dispatching, Event::Dispatched(false)) => {
            lemma_fail_progress(s, FrameError::Dispatch);
        },
        (Phase::Downloading, Event::Downloaded(true)) => {
            let next = State { slot: s.slot + 1, ..s };
            lemma_linked(s, next);
            lemma_download_planes_progress(next);
        },
        (Phase::Downloading, Event::Downloaded(false)) => {
            lemma_fail_progress(s, FrameError::Download);
        },
        (Phase::Destroying, Event::Destroyed) => {
            lemma_release_progress(s);
        },
        _ => {
            lemma_fail_progress(spec_adopt(s, e), FrameError::Protocol);
        },
    }
}

/// Whether none of `events` hands a texture to a pipeline started in `s`
/// while it is releasing what it holds or after it has finished.
pub open spec fn in_turn(s: State, events: Seq<Event>) -> bool {
    forall|i: int|
        0 <= i < events.len() && brings_texture(events[i]) ==> {
            &&& (#[trigger] run(s, events.take(i))).phase != Phase::Destroying
            &&& run(s, events.take(i)).phase != Phase::Done
        }
}

/// A pipeline that has finished holds nothing.
pub proof fn lemma_done_holds_nothing(s: State)
    requires
        inv(s),
        s.phase == Phase::Done,
    ensures
        held(s) == Multiset::<Tex>::empty(),
{
    broadcast use group_to_multiset_ensures;

    assert(s.texes_in =~= Seq::<Tex>::empty());
    assert(s.texes_out =~= Seq::<Tex>::empty());
    assert(held(s) =~= Multiset::<Tex>::empty());
}

/// A pipeline that has finished stays so, as long as no report hands it a
/// texture.
pub proof fn lemma_done_stays(s: State, e: Event)
    requires
        inv(s),
        s.phase == Phase::Done,
        !brings_texture(e),
    ensures
        spec_step(s, e).0.phase == Phase::Done,
{
    assert(spec_adopt(s, e) == s);
    assert(spec_step(s, e) == spec_fail(s, FrameError::Protocol));
}

/// The reports before the last are in turn if all are.
proof fn lemma_in_turn_prior(s: State, events: Seq<Event>)
    requires
        events.len() > 0,
        in_turn(s, events),
    ensures
        in_turn(s, events.drop_last()),
        brings_texture(events.last()) ==> run(s, events.drop_last()).phase != Phase::Destroying
            && run(s, events.drop_last()).phase != Phase::Done,
{
    let prior = events.drop_last();
    assert forall|i: int| 0 <= i < prior.len() && brings_texture(prior[i]) implies {
        &&& (#[trigger] run(s, prior.take(i))).phase != Phase::Destroying
        &&& run(s, prior.take(i)).phase != Phase::Done
    } by {
        assert(prior.take(i) =~= events.take(i));
        assert(prior[i] == events[i]);
    }
    assert(events.take(events.len() - 1) =~= prior);
}

/// A frame finishes within the bound: if the caller hands over no texture
/// out of turn, then after as many reports as the bound of the first state
/// says, and after fewer if any operation fails, the pipeline has finished
/// the frame and holds nothing.
pub proof fn lemma_finishes(s: State, events: Seq<Event>)
    requires
        inv(s),
        in_turn(s, events),
    ensures
        inv(run(s, events)),
        run(s, events).phase == Phase::Done || 0 <= steps_left(run(s, events)) <= steps_left(s)
            - events.len(),
        events.len() >= steps_left(s) ==> run(s, events).phase == Phase::Done && held(
            run(s, events),
        ) == Multiset::<Tex>::empty(),
    decreases events.len(),
{
    if events.len() == 0 {
        lemma_release_progress(s);
    } else {
        lemma_in_turn_prior(s, events);
        lemma_finishes(s, events.drop_last());
        lemma_step_left(run(s, events.drop_last()), events.last());
    }
    if run(s, events).phase == Phase::Done {
        lemma_done_holds_nothing(run(s, events));
    }
}

/// A step in turn keeps a finished pipeline finished and brings any other
/// nearer to the end.
proof fn lemma_step_left(s: State, e: Event)
    requires
        inv(s),
        brings_texture(e) ==> s.phase != Phase::Destroying && s.phase != Phase::Done,
    ensures
        inv(spec_step(s, e).0),
        s.phase == Phase::Done ==> spec_step(s, e).0.phase == Phase::Done,
        s.phase != Phase::Done ==> 0 <= steps_left(spec_step(s, e).0) < steps_left(s),
{
    lemma_step_inv(s, e);
    if s.phase == Phase::Done {
        lemma_done_stays(s, e);
    } else {
        lemma_step_progress(s, e);
    }
}

/// A copy that a pipeline asks for is of a plane of the frame that the
/// filter leaves alone, and its rows are no longer than the stride of
/// either frame.
pub proof fn lemma_copy_fits(
    frame_number: i32,
    gpu: usize,
    deband: DebandParams,
    process: Seq<bool>,
    format: VideoFormat,
    src: Seq<PlaneGeometry>,
    dst: Seq<PlaneGeometry>,
    events: Seq<Event>,
)
    requires
        events.len() > 0,
        answer(spec_initial(frame_number, gpu, deband, process, format, src, dst), events)
            is CopyPlane,
    ensures
        ({
            let copy = answer(
                spec_initial(frame_number, gpu, deband, process, format, src, dst),
                events,
            )->CopyPlane_0;
            &&& 0 <= copy.plane < process.len()
            &&& !process[copy.plane as int]
            &&& copy.row_size <= copy.dst_stride == dst[copy.plane as int].stride
            &&& copy.row_size <= copy.src_stride == src[copy.plane as int].stride
            &&& copy.row_size == dst[copy.plane as int].width * format.bytes_per_sample
            &&& copy.height == dst[copy.plane as int].height
        }),
{
    let s = spec_initial(frame_number, gpu, deband, process, format, src, dst);
    lemma_outstanding_held(s, events);
    lemma_run_fixed(s, events);
    lemma_run_awaits(s, events);
    lemma_descriptors_complete(frame_number, gpu, deband, process, format, src, dst, events);
    let at = run(s, events);
    assert(plane_fits(format, src, dst, at.plane as int));
    assert(0 <= dst[at.plane as int].width * format.bytes_per_sample) by (nonlinear_arith)
        requires
            0 <= dst[at.plane as int].width,
            1 <= format.bytes_per_sample,
    ;
}

} // verus!
