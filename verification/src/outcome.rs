//! What a frame that succeeded has been through: every plane that the filter
//! leaves alone was copied, and every other plane was uploaded, debanded and
//! downloaded, in this order.
use vstd::prelude::*;
use crate::deband::{spec_plane_data, PlaneGeometry, VideoFormat};
use crate::gpu::Tex;
use crate::pipeline::{
    inv, slot_linked, spec_adopt, spec_copy_params, spec_deband_frame, spec_download_planes,
    spec_fail, spec_initial, spec_next_plane, spec_release, spec_step, uploaded, Action,
    DispatchJob, Event, FrameError, Phase, State, TexTransferParams, Uploaded,
};
use crate::shaders_root::DebandParams;
use crate::trace::{
    answer, awaits, counted, lemma_descriptors_complete, lemma_outstanding_held, lemma_run_awaits,
    lemma_run_fixed, lemma_step_inv, run, same_frame,
};

verus! {

/// What a pipeline started in `s` asks for just before report `i` of
/// `events`.
#[verifier::opaque]
pub open spec fn asked_before(s: State, events: Seq<Event>, i: int) -> Action {
    answer(s, events.take(i))
}

/// Report `i` of `events` answers the request `asked` with `reported`.
pub open spec fn answered_at(
    s: State,
    events: Seq<Event>,
    i: int,
    asked: Action,
    reported: Event,
) -> bool {
    &&& 0 < i < events.len()
    &&& asked_before(s, events, i) == asked
    &&& events[i] == reported
}

/// Among `events` there is one that answers the request `asked` with
/// `reported`.
pub open spec fn answered(s: State, events: Seq<Event>, asked: Action, reported: Event) -> bool {
    exists|i: int| answered_at(s, events, i, asked, reported)
}

/// Plane `p` was copied from the source frame to the destination frame.
pub open spec fn copied_plane(s: State, events: Seq<Event>, p: int) -> bool {
    answered(
        s,
        events,
        Action::CopyPlane(spec_copy_params(s.format, s.src, s.dst, p)),
        Event::Copied,
    )
}

/// Plane `p` was uploaded, and the texture `handle` holds it since.
pub open spec fn uploaded_plane(s: State, events: Seq<Event>, p: int, handle: usize) -> bool {
    exists|tex: Tex, up: Uploaded|
        up.tex.spec_handle() == handle && #[trigger] answered(
            s,
            events,
            Action::UploadPlane { tex, data: spec_plane_data(s.format, s.src, p) },
            Event::Uploaded(Some(up)),
        )
}

/// The device ran a deband that samples the texture `src` and renders to the
/// texture `dst`.
pub open spec fn debanded_plane(s: State, events: Seq<Event>, src: usize, dst: usize) -> bool {
    exists|job: DispatchJob|
        job.src.tex == src && job.params.target == dst && #[trigger] answered(
            s,
            events,
            Action::Dispatch(job),
            Event::Dispatched(true),
        )
}

/// The texture `tex` was downloaded into plane `p` of the destination frame.
pub open spec fn downloaded_plane(s: State, events: Seq<Event>, tex: usize, p: int) -> bool {
    exists|params: TexTransferParams|
        params.tex == tex && params.plane == p && #[trigger] answered(
            s,
            events,
            Action::Download(params),
            Event::Downloaded(true),
        )
}

/// Plane `p` went the way that the filter has for it: it was copied if the
/// filter leaves it alone; else it was uploaded to a texture, that texture
/// was debanded into another, and the other was downloaded into plane `p`.
pub open spec fn plane_done(s: State, events: Seq<Event>, p: int) -> bool {
    if !s.process[p] {
        copied_plane(s, events, p)
    } else {
        exists|src: usize, dst: usize|
            {
                &&& #[trigger] debanded_plane(s, events, src, dst)
                &&& uploaded_plane(s, events, p, src)
                &&& downloaded_plane(s, events, dst, p)
            }
    }
}

/// What was answered stays answered when more is reported.
proof fn lemma_answered_grows(s: State, events: Seq<Event>, asked: Action, reported: Event)
    requires
        events.len() > 0,
        answered(s, events.drop_last(), asked, reported),
    ensures
        answered(s, events, asked, reported),
{
    reveal(asked_before);
    let prior = events.drop_last();
    let i = choose|i: int| answered_at(s, prior, i, asked, reported);
    assert(prior.take(i) =~= events.take(i));
    assert(answered_at(s, events, i, asked, reported));
}

/// The last report answers what was asked just before it.
proof fn lemma_answered_last(s: State, events: Seq<Event>)
    requires
        events.len() > 1,
    ensures
        answered(s, events, answer(s, events.drop_last()), events.last()),
{
    reveal(asked_before);
    let i = events.len() - 1;
    assert(events.take(i) =~= events.drop_last());
    assert(answered_at(s, events, i, answer(s, events.drop_last()), events.last()));
}

proof fn lemma_uploaded_grows(s: State, events: Seq<Event>, p: int, handle: usize)
    requires
        events.len() > 0,
        uploaded_plane(s, events.drop_last(), p, handle),
    ensures
        uploaded_plane(s, events, p, handle),
{
    let (tex, up) = choose|tex: Tex, up: Uploaded|
        up.tex.spec_handle() == handle && #[trigger] answered(
            s,
            events.drop_last(),
            Action::UploadPlane { tex, data: spec_plane_data(s.format, s.src, p) },
            Event::Uploaded(Some(up)),
        );
    lemma_answered_grows(
        s,
        events,
        Action::UploadPlane { tex, data: spec_plane_data(s.format, s.src, p) },
        Event::Uploaded(Some(up)),
    );
}

proof fn lemma_debanded_grows(s: State, events: Seq<Event>, src: usize, dst: usize)
    requires
        events.len() > 0,
        debanded_plane(s, events.drop_last(), src, dst),
    ensures
        debanded_plane(s, events, src, dst),
{
    let job = choose|job: DispatchJob|
        job.src.tex == src && job.params.target == dst && #[trigger] answered(
            s,
            events.drop_last(),
            Action::Dispatch(job),
            Event::Dispatched(true),
        );
    lemma_answered_grows(s, events, Action::Dispatch(job), Event::Dispatched(true));
}

proof fn lemma_downloaded_grows(s: State, events: Seq<Event>, tex: usize, p: int)
    requires
        events.len() > 0,
        downloaded_plane(s, events.drop_last(), tex, p),
    ensures
        downloaded_plane(s, events, tex, p),
{
    let params = choose|params: TexTransferParams|
        params.tex == tex && params.plane == p && #[trigger] answered(
            s,
            events.drop_last(),
            Action::Download(params),
            Event::Downloaded(true),
        );
    lemma_answered_grows(s, events, Action::Download(params), Event::Downloaded(true));
}

/// Number of planes, from the first on, that a pipeline in state `s` is done
/// preparing or copying.
pub open spec fn planes_handled(s: State) -> nat {
    match s.phase {
        Phase::Idle => 0,
        Phase::Copying => s.plane,
        Phase::Resolving => s.plane,
        Phase::CreatingInput(_) => s.plane,
        Phase::CreatingOutput => s.plane,
        Phase::Uploading => s.plane,
        _ => s.process.len(),
    }
}

/// Number of processed planes, from the first on, that a pipeline in state
/// `s` is done debanding.
pub open spec fn slots_debanded(s: State) -> nat {
    match s.phase {
        Phase::Beginning => s.slot,
        Phase::Dispatching => s.slot,
        Phase::Downloading => s.src_img.len(),
        Phase::Destroying => s.src_img.len(),
        Phase::Done => s.src_img.len(),
        _ => 0,
    }
}

/// Number of processed planes, from the first on, that a pipeline in state
/// `s` is done downloading.
pub open spec fn slots_downloaded(s: State) -> nat {
    match s.phase {
        Phase::Downloading => s.slot,
        Phase::Destroying => s.src_img.len(),
        Phase::Done => s.src_img.len(),
        _ => 0,
    }
}

/// Plane `p` is entered in the frame descriptors of `s` as processed plane
/// `j`.
pub open spec fn entered(s: State, j: int, p: int) -> bool {
    0 <= j < s.dst_img.len() && s.dst_img[j].component_mapping == p
}

/// The state `post` follows on `s` after the report `e` in a frame that has
/// not failed: the frame descriptors have grown by one plane at most, and
/// the pipeline is done with one thing more at most, the one that the
/// report is about.
pub open spec fn advances(s: State, e: Event, post: State) -> bool {
    let k = s.src_img.len() as int;
    &&& s.error.is_none()
    &&& post.dst_img.len() == post.src_img.len()
    &&& k <= post.src_img.len() <= k + 1
    &&& forall|j: int|
        0 <= j < k ==> post.src_img[j] == s.src_img[j] && post.dst_img[j] == s.dst_img[j]
    &&& post.src_img.len() == k + 1 ==> {
        &&& s.phase == Phase::Uploading
        &&& e matches Event::Uploaded(Some(up)) && post.src_img[k].texture == up.tex.spec_handle()
        &&& post.dst_img[k].component_mapping == s.plane
        &&& planes_handled(post) == s.plane + 1
    }
    &&& planes_handled(post) == planes_handled(s) || {
        &&& planes_handled(post) == s.plane + 1
        &&& planes_handled(s) == s.plane
        &&& s.plane < s.process.len()
        &&& if s.process[s.plane as int] {
            s.phase == Phase::Uploading && post.src_img.len() == k + 1
        } else {
            s.phase == Phase::Copying && e == Event::Copied
        }
    }
    &&& slots_debanded(post) == slots_debanded(s) || {
        &&& slots_debanded(post) == s.slot + 1
        &&& slots_debanded(s) == s.slot
        &&& s.slot < k
        &&& s.phase == Phase::Dispatching
        &&& e == Event::Dispatched(true)
    }
    &&& slots_downloaded(post) == slots_downloaded(s) || {
        &&& slots_downloaded(post) == s.slot + 1
        &&& slots_downloaded(s) == s.slot
        &&& s.slot < k
        &&& s.phase == Phase::Downloading
        &&& e == Event::Downloaded(true)
    }
    &&& slots_downloaded(post) <= slots_debanded(post) <= post.src_img.len()
}

/// The state `next` is one of the frame of `s` that is done with `handled`
/// planes, `debanded` debands and `downloaded` downloads, unless the frame
/// has failed by then.
spec fn lands(s: State, next: State, handled: nat, debanded: nat, downloaded: nat) -> bool {
    next.error.is_none() ==> {
        &&& s.error.is_none()
        &&& next.src_img == s.src_img
        &&& next.dst_img == s.dst_img
        &&& planes_handled(next) == handled
        &&& slots_debanded(next) == debanded
        &&& slots_downloaded(next) == downloaded
    }
}

proof fn lemma_release_lands(s: State, e: FrameError)
    ensures
        lands(s, spec_release(s).0, s.process.len(), s.src_img.len(), s.src_img.len()),
        spec_fail(s, e).0.error.is_some(),
{
}

proof fn lemma_download_planes_lands(s: State)
    requires
        s.dst_img.len() == s.src_img.len(),
        s.slot <= s.src_img.len(),
    ensures
        lands(s, spec_download_planes(s).0, s.process.len(), s.src_img.len(), s.slot),
{
    lemma_release_lands(s, FrameError::RowPitch);
}

proof fn lemma_deband_frame_lands(s: State)
    requires
        s.dst_img.len() == s.src_img.len(),
        s.slot <= s.src_img.len(),
    ensures
        lands(s, spec_deband_frame(s).0, s.process.len(), s.slot, 0),
{
    lemma_download_planes_lands(State { slot: 0, ..s });
}

proof fn lemma_next_plane_lands(s: State)
    requires
        s.dst_img.len() == s.src_img.len(),
        s.plane <= s.process.len(),
    ensures
        lands(s, spec_next_plane(s).0, s.plane, 0, 0),
{
    lemma_deband_frame_lands(State { slot: 0, ..s });
}

/// A step of a frame that has not failed afterwards advances it.
pub proof fn lemma_step_advances(s: State, e: Event)
    requires
        inv(s),
        counted(s),
    ensures
        spec_step(s, e).0.error.is_none() ==> advances(s, e, spec_step(s, e).0),
{
    let post = spec_step(s, e).0;
    lemma_step_inv(s, e);
    match (s.phase, e) {
        (Phase::Idle, Event::Start) => {
            lemma_release_lands(s, FrameError::Protocol);
            lemma_next_plane_lands(s);
        },
        (Phase::Copying, Event::Copied) => {
            lemma_next_plane_lands(State { plane: s.plane + 1, ..s });
        },
        (Phase::Resolving, Event::Format(Some(format))) => {},
        (Phase::Resolving, Event::Format(None)) => {
            lemma_release_lands(s, FrameError::Format);
        },
        (Phase::CreatingInput(format), Event::Texture(Some(tex))) => {
            lemma_release_lands(State { texes_in: s.texes_in.push(tex), ..s }, FrameError::Usage);
        },
        (Phase::CreatingInput(_), Event::Texture(None)) => {
            lemma_release_lands(s, FrameError::Texture);
        },
        (Phase::CreatingOutput, Event::Texture(Some(tex))) => {
            lemma_release_lands(State { texes_out: s.texes_out.push(tex), ..s }, FrameError::Usage);
        },
        (Phase::CreatingOutput, Event::Texture(None)) => {
            lemma_release_lands(s, FrameError::Texture);
        },
        (Phase::Uploading, Event::Uploaded(Some(up))) => {
            lemma_release_lands(
                State { texes_in: s.texes_in.update(s.texes_in.len() - 1, up.tex), ..s },
                FrameError::Usage,
            );
            lemma_next_plane_lands(uploaded(s, up));
        },
        (Phase::Uploading, Event::Uploaded(None)) => {
            lemma_release_lands(s, FrameError::Upload);
        },
        (Phase::Beginning, Event::Shader(shader)) => {
            lemma_release_lands(s, FrameError::Shader);
        },
        (Phase::Dispatching, Event::Dispatched(true)) => {
            lemma_deband_frame_lands(State { slot: s.slot + 1, ..s });
        },
        (Phase::Dispatching, Event::Dispatched(false)) => {
            lemma_release_lands(s, FrameError::Dispatch);
        },
        (Phase::Downloading, Event::Downloaded(true)) => {
            lemma_download_planes_lands(State { slot: s.slot + 1, ..s });
        },
        (Phase::Downloading, Event::Downloaded(false)) => {
            lemma_release_lands(s, FrameError::Download);
        },
        (Phase::Destroying, Event::Destroyed) => {
            lemma_release_lands(s, FrameError::Protocol);
        },
        _ => {
            lemma_release_lands(spec_adopt(s, e), FrameError::Protocol);
        },
    }
}

/// Plane `p`, which the pipeline is done preparing or copying, was copied
/// if the filter leaves it alone, and is entered in the frame descriptors
/// of `at` if not.
pub open spec fn plane_begun(s: State, events: Seq<Event>, at: State, p: int) -> bool {
    if !s.process[p] {
        copied_plane(s, events, p)
    } else {
        exists|j: int| entered(at, j, p)
    }
}

/// The plane that is entered in the frame descriptors of `at` as processed
/// plane `j` was uploaded to the texture that the source descriptor names.
pub open spec fn slot_uploaded(s: State, events: Seq<Event>, at: State, j: int) -> bool {
    uploaded_plane(s, events, at.dst_img[j].component_mapping as int, at.src_img[j].texture)
}

/// The texture that the source descriptor of `at` names for processed plane
/// `j` was debanded into the one that the destination descriptor names.
pub open spec fn slot_debanded(s: State, events: Seq<Event>, at: State, j: int) -> bool {
    debanded_plane(s, events, at.src_img[j].texture, at.dst_img[j].texture)
}

/// The texture that the destination descriptor of `at` names for processed
/// plane `j` was downloaded into the plane that it is entered for.
pub open spec fn slot_downloaded(s: State, events: Seq<Event>, at: State, j: int) -> bool {
    downloaded_plane(s, events, at.dst_img[j].texture, at.dst_img[j].component_mapping as int)
}

/// What was reported covers what the pipeline in state `at` is done with.
pub open spec fn covered(s: State, events: Seq<Event>, at: State) -> bool {
    &&& forall|p: int| 0 <= p < planes_handled(at) ==> #[trigger] plane_begun(s, events, at, p)
    &&& forall|j: int| 0 <= j < at.src_img.len() ==> #[trigger] slot_uploaded(s, events, at, j)
    &&& forall|j: int| 0 <= j < slots_debanded(at) ==> #[trigger] slot_debanded(s, events, at, j)
    &&& forall|j: int|
        0 <= j < slots_downloaded(at) ==> #[trigger] slot_downloaded(s, events, at, j)
}

/// What the steps of the proof below share: `pre` and `post` are states of
/// the frame of `s` before and after the last of `events`, the frame has not
/// failed, `pre` waits for the report of `asked`, which the last report
/// answers, and what was reported before covers what `pre` is done with.
spec fn last_step(s: State, events: Seq<Event>, pre: State, post: State, asked: Action) -> bool {
    &&& events.len() > 0
    &&& inv(pre)
    &&& same_frame(pre, s)
    &&& advances(pre, events.last(), post)
    &&& pre.phase != Phase::Idle ==> awaits(pre, asked) && answered(
        s,
        events,
        asked,
        events.last(),
    )
    &&& covered(s, events.drop_last(), pre)
}

proof fn lemma_cover_planes(s: State, events: Seq<Event>, pre: State, post: State, asked: Action)
    requires
        last_step(s, events, pre, post, asked),
    ensures
        forall|p: int| 0 <= p < planes_handled(post) ==> #[trigger] plane_begun(s, events, post, p),
{
    assert forall|p: int| 0 <= p < planes_handled(post) implies #[trigger] plane_begun(
        s,
        events,
        post,
        p,
    ) by {
        if p < planes_handled(pre) {
            assert(plane_begun(s, events.drop_last(), pre, p));
            if !s.process[p] {
                lemma_answered_grows(
                    s,
                    events,
                    Action::CopyPlane(spec_copy_params(s.format, s.src, s.dst, p)),
                    Event::Copied,
                );
            } else {
                let j = choose|j: int| entered(pre, j, p);
                assert(entered(post, j, p));
            }
        } else if s.process[p] {
            assert(entered(post, pre.src_img.len() as int, p));
        }
    }
}

proof fn lemma_cover_uploads(s: State, events: Seq<Event>, pre: State, post: State, asked: Action)
    requires
        last_step(s, events, pre, post, asked),
    ensures
        forall|j: int| 0 <= j < post.src_img.len() ==> #[trigger] slot_uploaded(s, events, post, j),
{
    assert forall|j: int| 0 <= j < post.src_img.len() implies #[trigger] slot_uploaded(
        s,
        events,
        post,
        j,
    ) by {
        if j < pre.src_img.len() {
            assert(slot_uploaded(s, events.drop_last(), pre, j));
            lemma_uploaded_grows(
                s,
                events,
                pre.dst_img[j].component_mapping as int,
                pre.src_img[j].texture,
            );
        } else {
            let up = events.last()->Uploaded_0.unwrap();
            assert(asked == (Action::UploadPlane {
                tex: pre.texes_in.last(),
                data: spec_plane_data(s.format, s.src, pre.plane as int),
            }));
            assert(uploaded_plane(s, events, pre.plane as int, up.tex.spec_handle()));
        }
    }
}

proof fn lemma_cover_debands(s: State, events: Seq<Event>, pre: State, post: State, asked: Action)
    requires
        last_step(s, events, pre, post, asked),
    ensures
        forall|j: int| 0 <= j < slots_debanded(post) ==> #[trigger] slot_debanded(s, events, post, j),
{
    assert forall|j: int| 0 <= j < slots_debanded(post) implies #[trigger] slot_debanded(
        s,
        events,
        post,
        j,
    ) by {
        if j < slots_debanded(pre) {
            assert(slot_debanded(s, events.drop_last(), pre, j));
            lemma_debanded_grows(s, events, pre.src_img[j].texture, pre.dst_img[j].texture);
        } else {
            assert(slot_linked(pre, j));
            assert(asked is Dispatch);
        }
    }
}

proof fn lemma_cover_downloads(
    s: State,
    events: Seq<Event>,
    pre: State,
    post: State,
    asked: Action,
)
    requires
        last_step(s, events, pre, post, asked),
    ensures
        forall|j: int|
            0 <= j < slots_downloaded(post) ==> #[trigger] slot_downloaded(s, events, post, j),
{
    assert forall|j: int| 0 <= j < slots_downloaded(post) implies #[trigger] slot_downloaded(
        s,
        events,
        post,
        j,
    ) by {
        if j < slots_downloaded(pre) {
            assert(slot_downloaded(s, events.drop_last(), pre, j));
            lemma_downloaded_grows(
                s,
                events,
                pre.dst_img[j].texture,
                pre.dst_img[j].component_mapping as int,
            );
        } else {
            assert(slot_linked(pre, j));
            assert(asked is Download);
        }
    }
}

/// As long as a frame has not failed, what was reported covers what the
/// pipeline is done with.
pub proof fn lemma_covered(
    frame_number: i32,
    gpu: usize,
    deband: DebandParams,
    process: Seq<bool>,
    format: VideoFormat,
    src: Seq<PlaneGeometry>,
    dst: Seq<PlaneGeometry>,
    events: Seq<Event>,
)
    ensures
        run(
            spec_initial(frame_number, gpu, deband, process, format, src, dst),
            events,
        ).error.is_none() ==> covered(
            spec_initial(frame_number, gpu, deband, process, format, src, dst),
            events,
            run(spec_initial(frame_number, gpu, deband, process, format, src, dst), events),
        ),
    decreases events.len(),
{
    let s = spec_initial(frame_number, gpu, deband, process, format, src, dst);
    let post = run(s, events);
    if events.len() > 0 && post.error.is_none() {
        let prior = events.drop_last();
        let pre = run(s, prior);
        lemma_covered(frame_number, gpu, deband, process, format, src, dst, prior);
        lemma_descriptors_complete(frame_number, gpu, deband, process, format, src, dst, prior);
        lemma_outstanding_held(s, prior);
        lemma_run_fixed(s, prior);
        lemma_step_advances(pre, events.last());
        let asked = answer(s, prior);
        if prior.len() > 0 {
            lemma_run_awaits(s, prior);
            lemma_answered_last(s, events);
        }
        assert(last_step(s, events, pre, post, asked));
        lemma_cover_planes(s, events, pre, post, asked);
        lemma_cover_uploads(s, events, pre, post, asked);
        lemma_cover_debands(s, events, pre, post, asked);
        lemma_cover_downloads(s, events, pre, post, asked);
    }
}

/// A frame that succeeds has been processed in full. When the pipeline asks
/// to return the destination frame, every plane that the filter leaves
/// alone has been copied, and every other plane has been uploaded to a
/// texture, that texture has been debanded into another, and the other has
/// been downloaded into the plane.
pub proof fn lemma_success_covers(
    frame_number: i32,
    gpu: usize,
    deband: DebandParams,
    process: Seq<bool>,
    format: VideoFormat,
    src: Seq<PlaneGeometry>,
    dst: Seq<PlaneGeometry>,
    events: Seq<Event>,
)
    requires
        events.len() > 0,
        answer(spec_initial(frame_number, gpu, deband, process, format, src, dst), events)
            == Action::Finish(None),
    ensures
        forall|p: int|
            0 <= p < process.len() ==> #[trigger] plane_done(
                spec_initial(frame_number, gpu, deband, process, format, src, dst),
                events,
                p,
            ),
{
    let s = spec_initial(frame_number, gpu, deband, process, format, src, dst);
    lemma_covered(frame_number, gpu, deband, process, format, src, dst, events);
    lemma_run_awaits(s, events);
    lemma_run_fixed(s, events);
    lemma_outstanding_held(s, events);
    lemma_done_covers(s, events, run(s, events));
}

/// What was reported by the time a pipeline has finished covers every plane.
proof fn lemma_done_covers(s: State, events: Seq<Event>, at: State)
    requires
        at.phase == Phase::Done,
        at.process == s.process,
        at.dst_img.len() == at.src_img.len(),
        covered(s, events, at),
    ensures
        forall|p: int| 0 <= p < s.process.len() ==> #[trigger] plane_done(s, events, p),
{
    assert forall|p: int| 0 <= p < s.process.len() implies #[trigger] plane_done(s, events, p) by {
        assert(plane_begun(s, events, at, p));
        if s.process[p] {
            let j = choose|j: int| entered(at, j, p);
            assert(slot_uploaded(s, events, at, j));
            assert(slot_debanded(s, events, at, j));
            assert(slot_downloaded(s, events, at, j));
        }
    }
}

/// A pipeline that waits for a dispatch or a download in a frame that has
/// not failed has had the plane uploaded, and before a download debanded.
proof fn lemma_awaited_in_order(s: State, events: Seq<Event>, at: State, asked: Action)
    requires
        inv(at),
        awaits(at, asked),
        covered(s, events, at),
    ensures
        asked matches Action::Dispatch(job) ==> exists|p: int|
            0 <= p < at.process.len() && uploaded_plane(s, events, p, job.src.tex),
        asked matches Action::Download(params) ==> exists|src: usize|
            {
                &&& #[trigger] debanded_plane(s, events, src, params.tex)
                &&& uploaded_plane(s, events, params.plane as int, src)
            },
{
    match asked {
        Action::Dispatch(job) => {
            assert(slot_linked(at, at.slot as int));
            assert(slot_uploaded(s, events, at, at.slot as int));
            let p = at.dst_img[at.slot as int].component_mapping as int;
            assert(0 <= p < at.process.len() && uploaded_plane(s, events, p, job.src.tex));
        },
        Action::Download(params) => {
            assert(slot_linked(at, at.slot as int));
            assert(slot_uploaded(s, events, at, at.slot as int));
            assert(slot_debanded(s, events, at, at.slot as int));
            let src = at.src_img[at.slot as int].texture;
            assert(debanded_plane(s, events, src, params.tex) && uploaded_plane(
                s,
                events,
                params.plane as int,
                src,
            ));
        },
        _ => {},
    }
}

/// A plane is debanded only after it was uploaded: when the pipeline asks to
/// run a shader, the reports before hold that of an upload which succeeded,
/// and the shader samples the texture that holds the plane since.
pub proof fn lemma_dispatch_after_upload(
    frame_number: i32,
    gpu: usize,
    deband: DebandParams,
    process: Seq<bool>,
    format: VideoFormat,
    src: Seq<PlaneGeometry>,
    dst: Seq<PlaneGeometry>,
    events: Seq<Event>,
)
    requires
        events.len() > 0,
        answer(spec_initial(frame_number, gpu, deband, process, format, src, dst), events)
            is Dispatch,
    ensures
        exists|p: int|
            0 <= p < process.len() && uploaded_plane(
                spec_initial(frame_number, gpu, deband, process, format, src, dst),
                events,
                p,
                answer(
                    spec_initial(frame_number, gpu, deband, process, format, src, dst),
                    events,
                )->Dispatch_0.src.tex,
            ),
{
    let s = spec_initial(frame_number, gpu, deband, process, format, src, dst);
    lemma_covered(frame_number, gpu, deband, process, format, src, dst, events);
    lemma_run_awaits(s, events);
    lemma_run_fixed(s, events);
    lemma_outstanding_held(s, events);
    lemma_awaited_in_order(s, events, run(s, events), answer(s, events));
}

/// A texture is downloaded only after the device has run the shader that
/// was dispatched against it: when the pipeline asks for a download into a
/// plane, the reports before hold that of the upload of the plane and that
/// of a deband, which succeeded, from the texture that held the plane into
/// the texture that is to be downloaded.
pub proof fn lemma_download_after_deband(
    frame_number: i32,
    gpu: usize,
    deband: DebandParams,
    process: Seq<bool>,
    format: VideoFormat,
    src: Seq<PlaneGeometry>,
    dst: Seq<PlaneGeometry>,
    events: Seq<Event>,
)
    requires
        events.len() > 0,
        answer(spec_initial(frame_number, gpu, deband, process, format, src, dst), events)
            is Download,
    ensures
        exists|from: usize|
            {
                &&& #[trigger] debanded_plane(
                    spec_initial(frame_number, gpu, deband, process, format, src, dst),
                    events,
                    from,
                    answer(
                        spec_initial(frame_number, gpu, deband, process, format, src, dst),
                        events,
                    )->Download_0.tex,
                )
                &&& uploaded_plane(
                    spec_initial(frame_number, gpu, deband, process, format, src, dst),
                    events,
                    answer(
                        spec_initial(frame_number, gpu, deband, process, format, src, dst),
                        events,
                    )->Download_0.plane as int,
                    from,
                )
            },
{
    let s = spec_initial(frame_number, gpu, deband, process, format, src, dst);
    lemma_covered(frame_number, gpu, deband, process, format, src, dst, events);
    lemma_run_awaits(s, events);
    lemma_outstanding_held(s, events);
    lemma_awaited_in_order(s, events, run(s, events), answer(s, events));
}

} // verus!
