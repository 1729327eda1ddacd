//! One unit of work: load a single tabular file through the external
//! row decoder and time the load on the monotonic clock.

use vstd::prelude::*;

verus! {

/// How one load went: the wall-clock nanoseconds the load took, or a
/// marker that the file could not be opened or decoded.
///
/// A failed load is deliberately reported as a marker rather than
/// propagated as a fatal error, so that one bad file cannot silently
/// abort its siblings' loads and the aggregator can report how many
/// loads succeeded and how many failed.
#[derive(Clone, Copy, PartialEq, Eq, Structural, Debug)]
pub enum LoadOutcome {
    Loaded { nanos: u64 },
    Failed,
}

/// The report for one unit of work: the identifier the file was
/// enumerated under, and how its load went. Exactly one of these is
/// produced per dispatched file, whatever the strategy.
#[derive(Debug)]
pub struct TimingResult {
    pub item: String,
    pub outcome: LoadOutcome,
}

/// `csv::Error`, the row decoder's error, carried opaquely.
#[verifier::external_type_specification]
#[verifier::external_body]
pub struct ExCsvError(csv::Error);

/// `std::time::Instant`, an opaque reading of the monotonic clock.
#[verifier::external_type_specification]
#[verifier::external_body]
pub struct ExInstant(std::time::Instant);

/// Relies on `std::time::Instant::now`: a reading of the monotonic
/// clock, unaffected by wall-clock adjustments. Nothing is promised of
/// the reading itself.
#[verifier::external_body]
fn monotonic_now() -> std::time::Instant {
    std::time::Instant::now()
}

/// Relies on `std::time::Instant::elapsed`: the nanoseconds of
/// monotonic time since `start`. The value depends on the moment of
/// the call, so nothing is promised of it.
#[verifier::external_body]
fn nanos_since(start: &std::time::Instant) -> u128 {
    start.elapsed().as_nanos()
}

/// Relies on `csv::ReaderBuilder::from_path` and
/// `csv::Reader::read_record`: opens the file at `path` expecting a
/// header row, reads every record to the end, and returns the first
/// open or decode error if there is one. The outcome depends on what
/// is on disk, so nothing is promised of it.
#[verifier::external_body]
fn decode_csv_file(path: &String) -> Result<(), csv::Error> {
    let mut reader = csv::ReaderBuilder::new().has_headers(true).from_path(path.as_str())?;
    let mut record = csv::StringRecord::new();
    while reader.read_record(&mut record)? {}
    Ok(())
}

/// Execute one unit of work: decode the identified file through the
/// external row decoder to full consumption, discarding the records,
/// and report under the same identifier how long the load took. The
/// measurement brackets the whole decode, so it reflects the time to
/// reach the last record; a load that cannot be opened or decoded
/// yields a `Failed` marker instead of a duration. An elapsed time too
/// large for the duration field is clamped to its maximum.
pub fn execute_unit(path: String) -> (r: TimingResult)
    ensures
        r.item == path,
{
    let start = monotonic_now();
    let decoded = decode_csv_file(&path);
    let elapsed = nanos_since(&start);
    match decoded {
        Ok(()) => {
            let nanos: u64 = if elapsed > u64::MAX as u128 {
                u64::MAX
            } else {
                elapsed as u64
            };
            TimingResult { item: path, outcome: LoadOutcome::Loaded { nanos } }
        },
        Err(_) => TimingResult { item: path, outcome: LoadOutcome::Failed },
    }
}

} // verus!
