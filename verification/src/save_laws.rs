//! What holds of every run of the transaction that enters a track.

use vstd::prelude::*;

verus! {

use crate::catalog::{ArtistView, ImageView, TrackView};
use crate::catalog_sql::{
    album_rowid_statement,
    album_statement,
    artist_rowid_statement,
    artist_statement,
    image_statement,
    link_statement,
    markets_statement,
    track_rowid_statement,
    track_statement,
};
use crate::save::{
    is_over,
    saving_after,
    saving_request,
    saving_start,
    stage_after,
    stage_fits,
    stage_request,
    SavingView,
    Stage,
};
use crate::sql::{ReplyView, RequestView};
use crate::tables::grants;

/// The row ids that the database answers in one run.
pub struct Rowids {
    pub album: i64,
    pub track: i64,
    pub artists: Seq<i64>,
}

/// The track's lists fit the machine.
pub open spec fn lists_fit(track: TrackView) -> bool {
    track.album.images.len() <= usize::MAX && track.artists.len() <= usize::MAX
}

/// The requests that enter the pictures of an album, in order.
pub open spec fn image_script(images: Seq<ImageView>, album_rowid: i64) -> Seq<RequestView> {
    images.map_values(
        |image: ImageView| RequestView::Execute(image_statement(image, album_rowid)),
    )
}

/// The requests that enter the artists of a track, in order: three for each.
pub open spec fn artist_script(
    artists: Seq<ArtistView>,
    now: i64,
    track_rowid: i64,
    rowids: Seq<i64>,
) -> Seq<RequestView> {
    Seq::new(
        3 * artists.len(),
        |k: int|
            if k % 3 == 0 {
                RequestView::Execute(artist_statement(artists[k / 3], now))
            } else if k % 3 == 1 {
                RequestView::FetchRowid(artist_rowid_statement(artists[k / 3]))
            } else {
                RequestView::Execute(link_statement(track_rowid, rowids[k / 3]))
            },
    )
}

/// Everything that a run without a failure asks for, in order.
pub open spec fn script(track: TrackView, now: i64, rowids: Rowids) -> Seq<RequestView> {
    seq![
        RequestView::Begin,
        RequestView::Execute(markets_statement()),
        RequestView::Execute(album_statement(track.album, now)),
        RequestView::FetchRowid(album_rowid_statement(track.album)),
    ] + image_script(track.album.images, rowids.album) + seq![
        RequestView::Execute(track_statement(track, now, rowids.album)),
        RequestView::FetchRowid(track_rowid_statement(track)),
    ] + artist_script(track.artists, now, rowids.track, rowids.artists) + seq![RequestView::Commit]
}

/// The row id that is read at this stage, where one is asked for.
pub open spec fn read_at(stage: Stage, rowids: Rowids) -> Option<i64> {
    match stage {
        Stage::AlbumRowid { .. } => Some(rowids.album),
        Stage::TrackRowid { .. } => Some(rowids.track),
        Stage::ArtistRowid { index, .. } => Some(rowids.artists[index as int]),
        _ => None,
    }
}

/// The reply that grants what the transaction asks for at this stage.
pub open spec fn granted<E>(stage: Stage, rowids: Rowids) -> ReplyView<E> {
    match (stage, read_at(stage, rowids)) {
        (_, Some(rowid)) => ReplyView::Rowid(rowid),
        (Stage::Opening, None) => ReplyView::Begun,
        (Stage::Committing, None) => ReplyView::Committed,
        _ => ReplyView::Executed,
    }
}

/// The stage that a run without a failure has come to after so many steps.
pub open spec fn granted_run(track: TrackView, now: i64, rowids: Rowids, steps: nat) -> Stage
    decreases steps,
{
    if steps == 0 {
        Stage::Opening
    } else {
        let stage = granted_run(track, now, rowids, (steps - 1) as nat);
        stage_after(track, stage, granted::<()>(stage, rowids), now)
    }
}

/// The stage that stands at the step `k` of a run without a failure.
pub open spec fn stage_at(track: TrackView, now: i64, rowids: Rowids, k: int) -> Stage {
    let images = track.album.images.len() as int;
    let artists = track.artists.len() as int;
    let behind = k - 6 - images;
    if k == 0 {
        Stage::Opening
    } else if k == 1 {
        Stage::Markets { now }
    } else if k == 2 {
        Stage::Album { now }
    } else if k == 3 {
        Stage::AlbumRowid { now }
    } else if k < 4 + images {
        Stage::Image { now, album_rowid: rowids.album, index: (k - 4) as usize }
    } else if k == 4 + images {
        Stage::Track { now, album_rowid: rowids.album }
    } else if k == 5 + images {
        Stage::TrackRowid { now }
    } else if behind < 3 * artists {
        let index = (behind / 3) as usize;
        if behind % 3 == 0 {
            Stage::Artist { now, track_rowid: rowids.track, index }
        } else if behind % 3 == 1 {
            Stage::ArtistRowid { now, track_rowid: rowids.track, index }
        } else {
            Stage::Link {
                now,
                track_rowid: rowids.track,
                index,
                artist_rowid: rowids.artists[behind / 3],
            }
        }
    } else if behind == 3 * artists {
        Stage::Committing
    } else {
        Stage::Saved
    }
}

/// A run without a failure passes the stages in this order.
pub proof fn lemma_granted_run(track: TrackView, now: i64, rowids: Rowids, steps: nat)
    requires
        lists_fit(track),
    ensures
        granted_run(track, now, rowids, steps) == stage_at(track, now, rowids, steps as int),
    decreases steps,
{
    if steps > 0 {
        lemma_granted_run(track, now, rowids, (steps - 1) as nat);
    }
}

/// Where every step is granted, the transaction asks for the markets, the album, the
/// album's row, each picture, the track, the track's row and, for each artist, the
/// artist, the artist's row and the link; then it commits, and the track is saved.
/// Each picture and the track refer to the row read for the album, each link to the
/// rows read for the track and for its own artist.
pub proof fn law_granted_run_follows_script(track: TrackView, now: i64, rowids: Rowids)
    requires
        lists_fit(track),
    ensures
        script(track, now, rowids).len() == 7 + track.album.images.len() + 3 * track.artists.len(),
        forall|k: nat|
            k < script(track, now, rowids).len() ==> #[trigger] stage_request(
                track,
                granted_run(track, now, rowids, k),
            ) == Some(script(track, now, rowids)[k as int]),
        granted_run(track, now, rowids, script(track, now, rowids).len()) == Stage::Saved,
{
    let whole = script(track, now, rowids);
    assert forall|k: nat| k < whole.len() implies #[trigger] stage_request(
        track,
        granted_run(track, now, rowids, k),
    ) == Some(whole[k as int]) by {
        lemma_granted_run(track, now, rowids, k);
    }
    lemma_granted_run(track, now, rowids, whole.len());
}

/// How many steps a run has behind it at this stage.
pub open spec fn steps_behind(track: TrackView, stage: Stage) -> int {
    let images = track.album.images.len() as int;
    let artists = track.artists.len() as int;
    match stage {
        Stage::Opening => 0,
        Stage::Markets { .. } => 1,
        Stage::Album { .. } => 2,
        Stage::AlbumRowid { .. } => 3,
        Stage::Image { index, .. } => 4 + index,
        Stage::Track { .. } => 4 + images,
        Stage::TrackRowid { .. } => 5 + images,
        Stage::Artist { index, .. } => 6 + images + 3 * index,
        Stage::ArtistRowid { index, .. } => 7 + images + 3 * index,
        Stage::Link { index, .. } => 8 + images + 3 * index,
        Stage::Committing => 6 + images + 3 * artists,
        Stage::Saved => 7 + images + 3 * artists,
        Stage::Failed => 0,
    }
}

/// Whatever the reply, the transaction stays where it is, goes one step on, or fails:
/// no step is ever skipped or repeated, so a commit has every step behind it. The
/// stage keeps speaking of pictures and artists that are there.
pub proof fn law_no_step_is_skipped<E>(
    track: TrackView,
    stage: Stage,
    reply: ReplyView<E>,
    clock: i64,
)
    requires
        lists_fit(track),
        stage_fits(track, stage),
    ensures
        stage_fits(track, stage_after(track, stage, reply, clock)),
        ({
            let next = stage_after(track, stage, reply, clock);
            ||| next == stage
            ||| next == Stage::Failed
            ||| steps_behind(track, next) == steps_behind(track, stage) + 1
        }),
{
}

/// The stage behind a row of replies, each with the time it arrived.
pub open spec fn stage_after_all<E>(
    track: TrackView,
    stage: Stage,
    replies: Seq<(ReplyView<E>, i64)>,
) -> Stage
    decreases replies.len(),
{
    if replies.len() == 0 {
        stage
    } else {
        stage_after(
            track,
            stage_after_all(track, stage, replies.drop_last()),
            replies.last().0,
            replies.last().1,
        )
    }
}

/// The transaction that enters a track, behind a row of replies, each with the time it
/// arrived.
pub open spec fn saving_run<E>(
    track: TrackView,
    replies: Seq<(ReplyView<E>, i64)>,
) -> SavingView<E>
    decreases replies.len(),
{
    if replies.len() == 0 {
        saving_start(track)
    } else {
        saving_after(
            saving_run(track, replies.drop_last()),
            replies.last().0,
            replies.last().1,
        )
    }
}

/// A run of the transaction passes the stages that its replies lead through, keeps to its
/// track, and asks for what its stage asks for.
pub proof fn lemma_saving_run<E>(track: TrackView, replies: Seq<(ReplyView<E>, i64)>)
    requires
        lists_fit(track),
    ensures
        saving_run(track, replies).track == track,
        saving_run(track, replies).stage == stage_after_all(track, Stage::Opening, replies),
        saving_request(saving_run(track, replies)) == stage_request(
            track,
            stage_after_all(track, Stage::Opening, replies),
        ),
        stage_fits(track, stage_after_all(track, Stage::Opening, replies)),
    decreases replies.len(),
{
    if replies.len() > 0 {
        lemma_saving_run(track, replies.drop_last());
    }
}

/// A reply that grants what the transaction asks for takes it one step on; a failure ends
/// it; any other reply changes nothing.
pub proof fn law_granted_save_goes_on<E>(
    track: TrackView,
    replies: Seq<(ReplyView<E>, i64)>,
    reply: ReplyView<E>,
    clock: i64,
)
    requires
        lists_fit(track),
        saving_request(saving_run(track, replies)) is Some,
    ensures
        ({
            let state = saving_run(track, replies);
            let next = saving_after(state, reply, clock);
            if grants(saving_request(state)->0, reply) {
                &&& next.stage != state.stage
                &&& next.stage != Stage::Failed
                &&& next.error == state.error
                &&& steps_behind(track, next.stage) == steps_behind(track, state.stage) + 1
            } else {
                match reply {
                    ReplyView::Failed(error) => next.stage == Stage::Failed && next.error == Some(
                        error,
                    ),
                    _ => next == state,
                }
            }
        }),
{
    lemma_saving_run(track, replies);
}

/// Every reply of the run grants what the transaction asks for when it arrives.
pub open spec fn all_granted<E>(track: TrackView, replies: Seq<(ReplyView<E>, i64)>) -> bool
    decreases replies.len(),
{
    replies.len() > 0 ==> {
        let request = saving_request(saving_run(track, replies.drop_last()));
        &&& all_granted(track, replies.drop_last())
        &&& request is Some
        &&& grants(request->0, replies.last().0)
    }
}

/// Success is owed: where every reply grants what was asked for, the track is saved once
/// there have been seven, one more for each picture and three more for each artist, and
/// before that the transaction is under way and asks for more.
pub proof fn law_granted_run_saves<E>(track: TrackView, replies: Seq<(ReplyView<E>, i64)>)
    requires
        lists_fit(track),
        all_granted(track, replies),
    ensures
        replies.len() <= 7 + track.album.images.len() + 3 * track.artists.len(),
        saving_run(track, replies).stage == Stage::Saved <==> replies.len() == 7
            + track.album.images.len() + 3 * track.artists.len(),
        replies.len() < 7 + track.album.images.len() + 3 * track.artists.len()
            ==> saving_request(saving_run(track, replies)) is Some,
        saving_run(track, replies).error is None,
        steps_behind(track, saving_run(track, replies).stage) == replies.len(),
        saving_run(track, replies).stage != Stage::Failed,
    decreases replies.len(),
{
    lemma_saving_run(track, replies);
    if replies.len() > 0 {
        let earlier = replies.drop_last();
        law_granted_run_saves(track, earlier);
        law_granted_save_goes_on(track, earlier, replies.last().0, replies.last().1);
    }
}

/// The error that a transaction ends with is the one that the first failure brought: a
/// run without a failure has none.
pub proof fn law_error_is_the_first_failure<E>(track: TrackView, replies: Seq<(ReplyView<E>, i64)>)
    requires
        lists_fit(track),
    ensures
        match saving_run(track, replies).error {
            Some(error) => {
                &&& saving_run(track, replies).stage == Stage::Failed
                &&& exists|i: int|
                    {
                        &&& 0 <= i < replies.len()
                        &&& (#[trigger] replies[i]).0 == ReplyView::Failed(error)
                        &&& forall|j: int| 0 <= j < i ==> !((#[trigger] replies[j]).0 is Failed)
                    }
            },
            None => {
                &&& saving_run(track, replies).stage != Stage::Failed
                &&& saving_run(track, replies).stage != Stage::Saved ==> forall|j: int|
                    0 <= j < replies.len() ==> !((#[trigger] replies[j]).0 is Failed)
            },
        },
    decreases replies.len(),
{
    if replies.len() > 0 {
        let earlier = replies.drop_last();
        let last = replies.len() - 1;
        law_error_is_the_first_failure(track, earlier);
        match saving_run(track, earlier).error {
            Some(error) => {
                let i = choose|i: int|
                    {
                        &&& 0 <= i < earlier.len()
                        &&& (#[trigger] earlier[i]).0 == ReplyView::Failed(error)
                        &&& forall|j: int| 0 <= j < i ==> !((#[trigger] earlier[j]).0 is Failed)
                    };
                assert(replies[i] == earlier[i]);
                assert forall|j: int| 0 <= j < i implies !((#[trigger] replies[j]).0 is Failed) by {
                    assert(replies[j] == earlier[j]);
                }
            },
            None => {
                assert(replies[last].0 == replies.last().0);
                if saving_run(track, earlier).stage != Stage::Saved {
                    assert forall|j: int| 0 <= j < last implies !((
                    #[trigger] replies[j]).0 is Failed) by {
                        assert(replies[j] == earlier[j]);
                    }
                }
            },
        }
    }
}

/// A transaction that is over stays as it is, and asks for nothing any more.
pub proof fn law_over_is_over<E>(
    track: TrackView,
    stage: Stage,
    replies: Seq<(ReplyView<E>, i64)>,
)
    requires
        is_over(stage),
    ensures
        stage_after_all(track, stage, replies) == stage,
        stage_request(track, stage) is None,
    decreases replies.len(),
{
    if replies.len() > 0 {
        law_over_is_over(track, stage, replies.drop_last());
    }
}

/// A step that fails before the commit is through saves nothing: whatever replies
/// came before and whatever follows, the transaction ends as failed.
pub proof fn law_failed_step_saves_nothing<E>(
    track: TrackView,
    before: Seq<(ReplyView<E>, i64)>,
    error: E,
    clock: i64,
    after: Seq<(ReplyView<E>, i64)>,
)
    requires
        stage_after_all(track, Stage::Opening, before) != Stage::Saved,
    ensures
        stage_after_all(
            track,
            Stage::Opening,
            before.push((ReplyView::Failed(error), clock)) + after,
        ) == Stage::Failed,
    decreases after.len(),
{
    let failed = before.push((ReplyView::Failed(error), clock));
    if after.len() == 0 {
        assert(failed + after =~= failed);
        assert(failed.drop_last() =~= before);
    } else {
        law_failed_step_saves_nothing(track, before, error, clock, after.drop_last());
        assert((failed + after).drop_last() =~= failed + after.drop_last());
    }
}

/// What has been asked for and granted in a run from the start, in order.
pub open spec fn granted_requests<E>(
    track: TrackView,
    replies: Seq<(ReplyView<E>, i64)>,
) -> Seq<RequestView>
    decreases replies.len(),
{
    if replies.len() == 0 {
        Seq::empty()
    } else {
        let earlier = granted_requests(track, replies.drop_last());
        let stage = stage_after_all(track, Stage::Opening, replies.drop_last());
        let next = stage_after_all(track, Stage::Opening, replies);
        if next == stage || next == Stage::Failed {
            earlier
        } else {
            earlier.push(stage_request(track, stage)->0)
        }
    }
}

/// The run has granted a first part of the script for this time and these row ids, and
/// it stands where that part leads.
pub open spec fn follows<E>(
    track: TrackView,
    replies: Seq<(ReplyView<E>, i64)>,
    now: i64,
    rowids: Rowids,
) -> bool {
    let stage = stage_after_all(track, Stage::Opening, replies);
    let done = granted_requests(track, replies);
    &&& done.len() <= script(track, now, rowids).len()
    &&& done == script(track, now, rowids).take(done.len() as int)
    &&& rowids.artists.len() == track.artists.len()
    &&& stage != Stage::Failed ==> {
        &&& stage == stage_at(track, now, rowids, done.len() as int)
        &&& done.len() == steps_behind(track, stage)
        &&& stage_fits(track, stage)
    }
}

proof fn lemma_script_at(track: TrackView, now: i64, rowids: Rowids, k: int)
    requires
        lists_fit(track),
        0 <= k < script(track, now, rowids).len(),
    ensures
        stage_request(track, stage_at(track, now, rowids, k)) == Some(
            script(track, now, rowids)[k],
        ),
{
}

proof fn lemma_script_prefix(track: TrackView, now: i64, a: Rowids, b: Rowids, k: int)
    requires
        lists_fit(track),
        0 <= k <= script(track, now, a).len(),
        forall|j: int| 0 <= j < k ==> stage_at(track, now, a, j) == stage_at(track, now, b, j),
    ensures
        script(track, now, a).take(k) == script(track, now, b).take(k),
{
    assert forall|j: int| 0 <= j < k implies script(track, now, a)[j] == script(
        track,
        now,
        b,
    )[j] by {
        lemma_script_at(track, now, a, j);
        lemma_script_at(track, now, b, j);
        assert(stage_at(track, now, a, j) == stage_at(track, now, b, j));
    }
    assert(script(track, now, a).take(k) =~= script(track, now, b).take(k));
}

/// The row id that a reply brings.
pub open spec fn read_in<E>(reply: ReplyView<E>) -> Option<i64> {
    match reply {
        ReplyView::Rowid(rowid) => Some(rowid),
        _ => None,
    }
}

/// The time and the row ids that are known behind `reply`: it may bring one more.
pub open spec fn read_so_far<E>(
    stage: Stage,
    reply: ReplyView<E>,
    clock: i64,
    now: i64,
    rowids: Rowids,
) -> (i64, Rowids) {
    match (stage, reply) {
        (Stage::Opening, _) => (clock, rowids),
        (Stage::AlbumRowid { .. }, ReplyView::Rowid(rowid)) => (
            now,
            Rowids { album: rowid, ..rowids },
        ),
        (Stage::TrackRowid { .. }, ReplyView::Rowid(rowid)) => (
            now,
            Rowids { track: rowid, ..rowids },
        ),
        (Stage::ArtistRowid { index, .. }, ReplyView::Rowid(rowid)) => (
            now,
            Rowids { artists: rowids.artists.update(index as int, rowid), ..rowids },
        ),
        _ => (now, rowids),
    }
}

/// What the replies of a run have brought: the time at which the transaction was opened,
/// and the row ids that were read. What has not arrived yet stands as nought.
pub open spec fn read_by<E>(track: TrackView, replies: Seq<(ReplyView<E>, i64)>) -> (i64, Rowids)
    decreases replies.len(),
{
    if replies.len() == 0 {
        (0, Rowids { album: 0, track: 0, artists: Seq::new(track.artists.len(), |i: int| 0i64) })
    } else {
        let stage = stage_after_all(track, Stage::Opening, replies.drop_last());
        let next = stage_after_all(track, Stage::Opening, replies);
        let (now, rowids) = read_by(track, replies.drop_last());
        if next == stage || next == Stage::Failed {
            (now, rowids)
        } else {
            read_so_far(stage, replies.last().0, replies.last().1, now, rowids)
        }
    }
}

/// A step that is granted leads on, and what it reads changes no earlier step.
pub proof fn lemma_step_on<E>(
    track: TrackView,
    reply: ReplyView<E>,
    clock: i64,
    now: i64,
    rowids: Rowids,
    k: int,
)
    requires
        lists_fit(track),
        rowids.artists.len() == track.artists.len(),
        0 <= k,
        stage_fits(track, stage_at(track, now, rowids, k)),
        k == steps_behind(track, stage_at(track, now, rowids, k)),
        ({
            let stage = stage_at(track, now, rowids, k);
            let next = stage_after(track, stage, reply, clock);
            next != stage && next != Stage::Failed
        }),
    ensures
        ({
            let stage = stage_at(track, now, rowids, k);
            let next = stage_after(track, stage, reply, clock);
            let read = read_so_far(stage, reply, clock, now, rowids);
            &&& k < script(track, now, rowids).len()
            &&& read.1.artists.len() == track.artists.len()
            &&& stage_at(track, read.0, read.1, k) == stage
            &&& stage_at(track, read.0, read.1, k + 1) == next
            &&& stage_fits(track, next)
            &&& steps_behind(track, next) == k + 1
            &&& k > 0 ==> read.0 == now
            &&& forall|j: int|
                0 <= j < k ==> stage_at(track, now, rowids, j) == #[trigger] stage_at(
                    track,
                    now,
                    read.1,
                    j,
                ) && read_at(stage_at(track, now, rowids, j), rowids) == read_at(
                    stage_at(track, now, rowids, j),
                    read.1,
                )
            &&& read_at(stage, read.1) == read_in(reply)
        }),
{
}

/// Every run follows the script for what its replies have brought.
pub proof fn lemma_run_follows<E>(track: TrackView, replies: Seq<(ReplyView<E>, i64)>)
    requires
        lists_fit(track),
    ensures
        follows(track, replies, read_by(track, replies).0, read_by(track, replies).1),
    decreases replies.len(),
{
    if replies.len() == 0 {
        let (now, rowids) = read_by(track, replies);
        assert(script(track, now, rowids).take(0) =~= Seq::empty());
    } else {
        lemma_run_follows(track, replies.drop_last());
        lemma_run_still_follows(track, replies);
    }
}

proof fn lemma_run_still_follows<E>(track: TrackView, replies: Seq<(ReplyView<E>, i64)>)
    requires
        lists_fit(track),
        replies.len() > 0,
        ({
            let (now, rowids) = read_by(track, replies.drop_last());
            follows(track, replies.drop_last(), now, rowids)
        }),
    ensures
        follows(track, replies, read_by(track, replies).0, read_by(track, replies).1),
{
    let earlier = replies.drop_last();
    let (now, rowids) = read_by(track, earlier);
    let stage = stage_after_all(track, Stage::Opening, earlier);
    let next = stage_after_all(track, Stage::Opening, replies);
    let (reply, clock) = replies.last();
    if next != stage && next != Stage::Failed {
        let k = granted_requests(track, earlier).len() as int;
        let read = read_so_far(stage, reply, clock, now, rowids);
        lemma_step_on(track, reply, clock, now, rowids, k);
        let whole = script(track, read.0, read.1);
        if k == 0 {
            assert(whole.take(0) =~= granted_requests(track, earlier));
        } else {
            lemma_script_prefix(track, now, rowids, read.1, k);
        }
        lemma_script_at(track, read.0, read.1, k);
        assert(whole.take(k + 1) =~= whole.take(k).push(whole[k]));
    }
}

/// The reply at `i` is the first that says that the transaction is open.
pub open spec fn opens_at<E>(replies: Seq<(ReplyView<E>, i64)>, i: int) -> bool {
    &&& 0 <= i < replies.len()
    &&& replies[i].0 is Begun
    &&& forall|j: int| 0 <= j < i ==> !((#[trigger] replies[j]).0 is Begun)
}

/// The time of a run that is under way or through is that at which the transaction was
/// opened.
pub proof fn lemma_time_is_that_of_the_opening<E>(
    track: TrackView,
    replies: Seq<(ReplyView<E>, i64)>,
)
    ensures
        ({
            let stage = stage_after_all(track, Stage::Opening, replies);
            &&& stage == Stage::Opening ==> forall|j: int|
                0 <= j < replies.len() ==> !((#[trigger] replies[j]).0 is Begun)
            &&& stage != Stage::Opening && stage != Stage::Failed ==> exists|i: int|
                #![trigger opens_at(replies, i)]
                opens_at(replies, i) && read_by(track, replies).0 == replies[i].1
        }),
    decreases replies.len(),
{
    if replies.len() > 0 {
        let earlier = replies.drop_last();
        let last = replies.len() - 1;
        lemma_time_is_that_of_the_opening(track, earlier);
        let stage = stage_after_all(track, Stage::Opening, earlier);
        let next = stage_after_all(track, Stage::Opening, replies);
        assert(replies[last] == replies.last());
        assert forall|j: int| 0 <= j < last implies #[trigger] replies[j] == earlier[j] by {}
        if next == Stage::Opening {
            assert(stage == Stage::Opening);
        } else if next != Stage::Failed {
            if stage == Stage::Opening {
                assert(opens_at(replies, last));
            } else {
                let i = choose|i: int|
                    #![trigger opens_at(earlier, i)]
                    opens_at(earlier, i) && read_by(track, earlier).0 == earlier[i].1;
                assert(opens_at(replies, i));
                assert(read_by(track, replies).0 == read_by(track, earlier).0);
            }
        }
    }
}

/// Whatever the replies, stray ones and failures among them, what has been granted is a
/// first part of the script for the time and the row ids that the replies have brought;
/// and once the track is saved it is all of it.
pub proof fn law_every_run_is_a_part_of_a_script<E>(
    track: TrackView,
    replies: Seq<(ReplyView<E>, i64)>,
)
    requires
        lists_fit(track),
    ensures
        ({
            let (now, rowids) = read_by(track, replies);
            let whole = script(track, now, rowids);
            let done = granted_requests(track, replies);
            &&& done.len() <= whole.len()
            &&& done == whole.take(done.len() as int)
            &&& stage_after_all(track, Stage::Opening, replies) == Stage::Saved ==> done == whole
        }),
{
    lemma_run_follows(track, replies);
    let (now, rowids) = read_by(track, replies);
    let whole = script(track, now, rowids);
    assert(whole.take(whole.len() as int) =~= whole);
}

} // verus!
