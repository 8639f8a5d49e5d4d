//! Self-update of the desktop app: what a check reports, when an install may
//! start, and the progress events a download emits.
use vstd::prelude::*;
use crate::text::{chars_of, owned, trim, trim_str};

verus! {

/// An update that a check found.
#[derive(Debug, Clone)]
pub struct UpdateMetadata {
    pub version: String,
    pub current_version: String,
}

/// What an update check reports.
#[derive(Debug, Clone)]
pub struct UpdateCheckResult {
    pub enabled: bool,
    pub disabled_reason: Option<String>,
    pub update: Option<UpdateMetadata>,
}

/// One event of an update download: `started`, `progress` or `finished`.
#[derive(Debug, Clone)]
pub struct UpdateEvent {
    pub kind: String,
    pub chunk_length: Option<usize>,
    pub content_length: Option<u64>,
}

pub open spec fn event_view(e: UpdateEvent) -> (Seq<char>, Option<usize>, Option<u64>) {
    (e.kind@, e.chunk_length, e.content_length)
}

pub open spec fn events_view(s: Seq<UpdateEvent>) -> Seq<(Seq<char>, Option<usize>, Option<u64>)> {
    s.map_values(|e: UpdateEvent| event_view(e))
}

/// The events one downloaded chunk produces: `started` with the announced
/// length where nothing was downloaded before, then `progress` with the
/// chunk's length.
pub open spec fn chunk_step_events(started: bool, chunk: (usize, Option<u64>)) -> Seq<
    (Seq<char>, Option<usize>, Option<u64>),
> {
    (if started {
        Seq::empty()
    } else {
        seq![("started"@, None::<usize>, chunk.1)]
    }) + seq![("progress"@, Some(chunk.0), None::<u64>)]
}

/// The events a download emits for its chunks, in order.
pub open spec fn chunk_events(chunks: Seq<(usize, Option<u64>)>) -> Seq<
    (Seq<char>, Option<usize>, Option<u64>),
>
    decreases chunks.len(),
{
    if chunks.len() == 0 {
        Seq::empty()
    } else {
        chunk_events(chunks.drop_last()) + chunk_step_events(chunks.len() > 1, chunks.last())
    }
}

/// A download announces itself exactly once, first, with the total length
/// the first chunk reported; after that each chunk gives one `progress`
/// event with its length, in order.
pub proof fn law_download_events(chunks: Seq<(usize, Option<u64>)>)
    ensures
        chunk_events(chunks).len() == if chunks.len() == 0 {
            0
        } else {
            chunks.len() + 1
        },
        chunks.len() > 0 ==> chunk_events(chunks)[0] == ("started"@, None::<usize>, chunks[0].1),
        forall|k: int|
            1 <= k <= chunks.len() ==> #[trigger] chunk_events(chunks)[k] == ("progress"@, Some(
                chunks[k - 1].0,
            ), None::<u64>),
    decreases chunks.len(),
{
    if chunks.len() > 0 {
        let prev = chunks.drop_last();
        law_download_events(prev);
        let e = chunk_events(chunks);
        assert forall|k: int| 1 <= k <= chunks.len() implies #[trigger] e[k] == ("progress"@, Some(
            chunks[k - 1].0,
        ), None::<u64>) by {
            if k < chunks.len() {
                assert(e[k] == chunk_events(prev)[k]);
                assert(prev[k - 1] == chunks[k - 1]);
            }
        }
        if chunks.len() > 1 {
            assert(e[0] == chunk_events(prev)[0]);
        }
    }
}

/// Tracks a download so that `started` is emitted once.
pub struct DownloadProgress {
    pub started: bool,
}

impl DownloadProgress {
    pub fn new() -> (r: Self)
        ensures
            !r.started,
    {
        DownloadProgress { started: false }
    }

    /// The events for one downloaded chunk.
    pub fn on_chunk(&mut self, chunk_length: usize, content_length: Option<u64>) -> (r: Vec<UpdateEvent>)
        ensures
            final(self).started,
            events_view(r@) == chunk_step_events(old(self).started, (chunk_length, content_length)),
    {
        let mut r: Vec<UpdateEvent> = Vec::new();
        if !self.started {
            r.push(UpdateEvent { kind: owned("started"), chunk_length: None, content_length });
            self.started = true;
        }
        r.push(UpdateEvent { kind: owned("progress"), chunk_length: Some(chunk_length), content_length: None });
        assert(events_view(r@) =~= chunk_step_events(old(self).started, (chunk_length, content_length)));
        r
    }
}

/// The event that ends a download.
pub fn finished_event() -> (r: UpdateEvent)
    ensures
        event_view(r) == ("finished"@, None::<usize>, None::<u64>),
{
    UpdateEvent { kind: owned("finished"), chunk_length: None, content_length: None }
}

/// The updater's signing key from the configured value: trimmed, and
/// refused where it is missing or blank.
pub fn updater_pubkey(configured: Option<&str>) -> (r: Result<String, String>)
    ensures
        match configured {
            Some(s) => trim(s@).len() > 0,
            None => false,
        } ==> (r matches Ok(k) && k@ == trim(configured.unwrap()@)),
        !match configured {
            Some(s) => trim(s@).len() > 0,
            None => false,
        } ==> (r matches Err(m) && m@ == "updater configuration is missing plugins.updater.pubkey"@),
{
    match configured {
        Some(s) => {
            let t = trim_str(s);
            if chars_of(t.as_str()).len() > 0 {
                return Ok(t);
            }
        },
        None => {},
    }
    Err(owned("updater configuration is missing plugins.updater.pubkey"))
}

/// What a check on a desktop build reports: enabled, with the update it
/// found, if any, against the running version.
pub fn update_check_result(available_version: Option<String>, current_version: &str) -> (r: UpdateCheckResult)
    ensures
        r.enabled,
        r.disabled_reason is None,
        available_version is None ==> r.update is None,
        available_version matches Some(v) ==> (r.update matches Some(m) && m.version@ == v@
            && m.current_version@ == current_version@),
{
    let update = match available_version {
        Some(version) => Some(UpdateMetadata { version, current_version: owned(current_version) }),
        None => None,
    };
    UpdateCheckResult { enabled: true, disabled_reason: None, update }
}

/// What a check on a build without the updater reports.
pub fn unsupported_update_check() -> (r: UpdateCheckResult)
    ensures
        !r.enabled,
        r.disabled_reason matches Some(m) && m@ == "Updater is only supported on desktop builds."@,
        r.update is None,
{
    UpdateCheckResult {
        enabled: false,
        disabled_reason: Some(owned("Updater is only supported on desktop builds.")),
        update: None,
    }
}

/// Whether an install may start: no operation may be running, and a check
/// must have found an update.
pub fn install_update_precheck(
    background_busy: bool,
    in_flight_background: bool,
    in_flight_lifecycle: bool,
    has_pending: bool,
) -> (r: Result<(), String>)
    ensures
        r is Ok <==> !background_busy && !in_flight_background && !in_flight_lifecycle && has_pending,
        r matches Err(m) ==> m@ == if background_busy || in_flight_background || in_flight_lifecycle {
            "cannot install update while operations are running"@
        } else {
            "there is no pending update; check for updates first"@
        },
{
    if background_busy || in_flight_background || in_flight_lifecycle {
        return Err(owned("cannot install update while operations are running"));
    }
    if !has_pending {
        return Err(owned("there is no pending update; check for updates first"));
    }
    Ok(())
}

} // verus!
