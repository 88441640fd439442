//! The track-summary view: a fold over the decoder's event stream that
//! extracts, for every track container, the track id from its track-header
//! box and a media-kind classification from whichever sample-description
//! entries occur inside it.
//!
//! The executable summariser is proved to compute exactly the mathematical
//! fold [`spec_track_summary`] over the event sequence.

use vstd::prelude::*;

use crate::boxes::{Mp4Box, SampleEntry, FOURCC_TRAK};
use crate::fixed::Fixed1616;
use crate::parser::Event;

verus! {

/// The summary of one track: its id and media kind.
#[derive(Debug, Clone, Copy, PartialEq, Eq, Structural)]
pub struct Track {
    pub id: u32,
    pub info: TrackInfo,
}

/// The media kind of a track, with its key parameters.
#[derive(Debug, Clone, Copy, PartialEq, Eq, Structural)]
pub enum TrackInfo {
    Audio(AudioTrack),
    Video(VideoTrack),
}

#[derive(Debug, Clone, Copy, PartialEq, Eq, Structural)]
pub struct AudioTrack {
    pub channel_count: u16,
    pub sample_rate: Fixed1616,
}

#[derive(Debug, Clone, Copy, PartialEq, Eq, Structural)]
pub struct VideoTrack {
    pub width: u16,
    pub height: u16,
}

/// The whole file's summary.
#[derive(Debug, Clone, PartialEq, Eq)]
pub struct Info {
    pub tracks: Vec<Track>,
}

/// A track container closed before both required pieces were seen.
#[derive(Debug, Clone, Copy, PartialEq, Eq, Structural)]
pub enum SummaryError {
    /// The track container at `offset` held no track-header box.
    MissingTrackHeader { offset: u64 },
    /// The track container at `offset` held no sample-description entry.
    MissingSampleDescription { offset: u64 },
}

/// A track container whose events are still being folded.
#[derive(Debug, Clone, Copy, PartialEq, Eq, Structural)]
pub struct PendingTrack {
    /// Where the track container starts (for error reports).
    pub start: u64,
    /// Where the track container ends: events at or past this offset close
    /// it.
    pub end: u64,
    pub id: Option<u32>,
    pub info: Option<TrackInfo>,
}

/// The byte offset an event carries.
pub open spec fn event_offset(e: Event) -> u64 {
    match e {
        Event::Decoded { offset, .. } => offset,
        Event::UnknownSkipped { offset, .. } => offset,
        Event::Sample { offset, .. } => offset,
        Event::MetadataTag { offset, .. } => offset,
        Event::CompatibilityWarning { offset, .. } => offset,
    }
}

/// The classification a sample-description entry contributes.
pub open spec fn spec_entry_info(entry: SampleEntry) -> TrackInfo {
    match entry {
        SampleEntry::Mp4a(m) => TrackInfo::Audio(
            AudioTrack { channel_count: m.channel_count, sample_rate: m.sample_rate },
        ),
        SampleEntry::Avc1(v) => TrackInfo::Video(VideoTrack { width: v.width, height: v.height }),
    }
}

/// Close a pending track: both the track id and a media kind must have been
/// seen, else the summary fails naming the track container's offset.
pub open spec fn spec_finish_pending(p: PendingTrack, tracks: Seq<Track>) -> Result<
    Seq<Track>,
    SummaryError,
> {
    match p.id {
        None => Err(SummaryError::MissingTrackHeader { offset: p.start }),
        Some(id) => match p.info {
            None => Err(SummaryError::MissingSampleDescription { offset: p.start }),
            Some(info) => Ok(tracks.push(Track { id, info })),
        },
    }
}

/// Fold one event into the state, assuming any pending track that the
/// event's offset closes has already been closed.
pub open spec fn spec_step_open(
    s: (Option<PendingTrack>, Seq<Track>),
    e: Event,
) -> (Option<PendingTrack>, Seq<Track>) {
    match e {
        Event::Decoded { offset, size, box_type, data, .. } => {
            if box_type == FOURCC_TRAK {
                (
                    Some(
                        PendingTrack {
                            start: offset,
                            end: offset.wrapping_add(size),
                            id: None,
                            info: None,
                        },
                    ),
                    s.1,
                )
            } else {
                match data {
                    Mp4Box::Tkhd(th) => match s.0 {
                        Some(p) => (
                            Some(PendingTrack { id: Some(th.track_id), ..p }),
                            s.1,
                        ),
                        None => s,
                    },
                    _ => s,
                }
            }
        },
        Event::Sample { entry, .. } => match s.0 {
            Some(p) => (Some(PendingTrack { info: Some(spec_entry_info(entry)), ..p }), s.1),
            None => s,
        },
        _ => s,
    }
}

/// Fold one event into the state: first close a pending track that the
/// event lies past, then let the event act.
pub open spec fn spec_step(s: (Option<PendingTrack>, Seq<Track>), e: Event) -> Result<
    (Option<PendingTrack>, Seq<Track>),
    SummaryError,
> {
    if s.0 matches Some(p) && event_offset(e) >= p.end {
        match spec_finish_pending(s.0->Some_0, s.1) {
            Err(err) => Err(err),
            Ok(ts) => Ok(spec_step_open((None, ts), e)),
        }
    } else {
        Ok(spec_step_open(s, e))
    }
}

/// Fold a whole event sequence, starting with no pending track and no
/// summarised tracks.
pub open spec fn spec_run(events: Seq<Event>) -> Result<
    (Option<PendingTrack>, Seq<Track>),
    SummaryError,
>
    decreases events.len(),
{
    if events.len() == 0 {
        Ok((None, Seq::empty()))
    } else {
        match spec_run(events.drop_last()) {
            Err(e) => Err(e),
            Ok(s) => spec_step(s, events.last()),
        }
    }
}

/// The summary of an event stream: the fold over all events, with a still
/// pending track closed at the end of the stream.
pub open spec fn spec_track_summary(events: Seq<Event>) -> Result<Seq<Track>, SummaryError> {
    match spec_run(events) {
        Err(e) => Err(e),
        Ok(s) => match s.0 {
            Some(p) => spec_finish_pending(p, s.1),
            None => Ok(s.1),
        },
    }
}

/// Once the fold has failed on a prefix, the whole fold fails the same
/// way: later events cannot undo an error.
proof fn lemma_run_error_persists(events: Seq<Event>, i: int)
    requires
        0 <= i <= events.len(),
        spec_run(events.take(i)) is Err,
    ensures
        spec_run(events) == spec_run(events.take(i)),
    decreases events.len() - i,
{
    if i == events.len() {
        assert(events.take(i) =~= events);
    } else {
        assert(events.take(i + 1).drop_last() =~= events.take(i));
        assert(spec_run(events.take(i + 1)) == spec_run(events.take(i)));
        lemma_run_error_persists(events, i + 1);
    }
}

/// Close a pending track, appending the finished summary to `tracks`.
fn finish_pending(p: &PendingTrack, tracks: &mut Vec<Track>) -> (r: Result<(), SummaryError>)
    ensures
        match r {
            Ok(_) => spec_finish_pending(*p, old(tracks)@) == Ok::<Seq<Track>, SummaryError>(
                final(tracks)@,
            ),
            Err(e) => spec_finish_pending(*p, old(tracks)@) == Err::<Seq<Track>, SummaryError>(e)
                && final(tracks)@ == old(tracks)@,
        },
{
    match p.id {
        None => Err(SummaryError::MissingTrackHeader { offset: p.start }),
        Some(id) => match p.info {
            None => Err(SummaryError::MissingSampleDescription { offset: p.start }),
            Some(info) => {
                tracks.push(Track { id, info });
                Ok(())
            },
        },
    }
}

/// Consume the decoder's event stream and summarise every track container:
/// the track id from its track-header box, and the media kind from
/// whichever sample-description entries occurred inside it.  Returns
/// exactly what the mathematical fold [`spec_track_summary`] yields.
#[verifier::loop_isolation(false)]
pub fn track_summary(events: &Vec<Event>) -> (r: Result<Info, SummaryError>)
    ensures
        match r {
            Ok(info) => spec_track_summary(events@) == Ok::<Seq<Track>, SummaryError>(
                info.tracks@,
            ),
            Err(e) => spec_track_summary(events@) == Err::<Seq<Track>, SummaryError>(e),
        },
{
    let mut tracks: Vec<Track> = Vec::new();
    let mut pending: Option<PendingTrack> = None;
    let n = events.len();
    let mut i: usize = 0;
    while i < n
        invariant
            i <= n,
            spec_run(events@.take(i as int)) == Ok::<
                (Option<PendingTrack>, Seq<Track>),
                SummaryError,
            >((pending, tracks@)),
        decreases n - i,
    {
        proof {
            assert(events@.take(i + 1).drop_last() =~= events@.take(i as int));
            assert(events@.take(i + 1).last() == events@[i as int]);
        }
        let e = &events[i];
        let close = match &pending {
            Some(p) => {
                let off = match e {
                    Event::Decoded { offset, .. } => *offset,
                    Event::UnknownSkipped { offset, .. } => *offset,
                    Event::Sample { offset, .. } => *offset,
                    Event::MetadataTag { offset, .. } => *offset,
                    Event::CompatibilityWarning { offset, .. } => *offset,
                };
                off >= p.end
            },
            None => false,
        };
        if close {
            let p = pending.unwrap();
            match finish_pending(&p, &mut tracks) {
                Ok(_) => {},
                Err(err) => {
                    proof {
                        lemma_run_error_persists(events@, i + 1);
                    }
                    return Err(err);
                },
            }
            pending = None;
        }
        match e {
            Event::Decoded { offset, size, box_type, data, .. } => {
                if *box_type == FOURCC_TRAK {
                    pending = Some(
                        PendingTrack {
                            start: *offset,
                            end: offset.wrapping_add(*size),
                            id: None,
                            info: None,
                        },
                    );
                } else {
                    if let Mp4Box::Tkhd(th) = data {
                        if let Some(p) = pending {
                            pending = Some(PendingTrack { id: Some(th.track_id), ..p });
                        }
                    }
                }
            },
            Event::Sample { entry, .. } => {
                let info = match entry {
                    SampleEntry::Mp4a(m) => TrackInfo::Audio(
                        AudioTrack { channel_count: m.channel_count, sample_rate: m.sample_rate },
                    ),
                    SampleEntry::Avc1(v) => TrackInfo::Video(
                        VideoTrack { width: v.width, height: v.height },
                    ),
                };
                if let Some(p) = pending {
                    pending = Some(PendingTrack { info: Some(info), ..p });
                }
            },
            _ => {},
        }
        i = i + 1;
    }
    proof {
        assert(events@.take(n as int) =~= events@);
    }
    match pending {
        Some(p) => {
            match finish_pending(&p, &mut tracks) {
                Ok(_) => {},
                Err(err) => {
                    return Err(err);
                },
            }
            Ok(Info { tracks })
        },
        None => Ok(Info { tracks }),
    }
}

} // verus!
