use ontime::extract::StartTimeMatcher;
use ontime::records::{RecordSelection, StartTimes};
use ontime::window::{resolve_bound, resolve_window, valid_indices, Window};
use ontime::{OntimeError, Timestamp};
use std::io::Cursor;

fn at(hour: u8, minute: u8) -> Timestamp {
    Timestamp { year: 2022, month: 12, day: 12, hour, minute, second: 0, nanosecond: 0 }
}

/// Both passes over in-memory FASTQ text, writing the kept records.
fn select(text: &[u8], from: Option<&str>, to: Option<&str>) -> Result<Vec<u8>, OntimeError> {
    let matcher = StartTimeMatcher::new().unwrap();
    let mut times = StartTimes::new();
    if !text.is_empty() {
        let mut reader = needletail::parse_fastx_reader(Cursor::new(text.to_vec())).unwrap();
        while let Some(rec) = reader.next() {
            let rec = rec.unwrap();
            times.record(matcher.start_time(rec.id()), rec.start_line_number())?;
        }
    }
    let (first, last) = times.extrema()?;
    let window = resolve_window(from, to, &first, &last)?;
    let (mask, n) = valid_indices(times.times(), &window.earliest, &window.latest);
    let mut selection = RecordSelection::new(mask, n, true);
    let mut out = Vec::new();
    let mut reader = needletail::parse_fastx_reader(Cursor::new(text.to_vec())).unwrap();
    while !selection.is_complete() {
        match reader.next() {
            None => break,
            Some(rec) => {
                let rec = rec.unwrap();
                if selection.next_record()? {
                    rec.write(&mut out, None).unwrap();
                }
            }
        }
    }
    selection.finish()?;
    Ok(out)
}

const TWO_READS: &[u8] =
    b"@s0 start_time=2022-12-12T18:00:00Z\nA\n+\n1\n@s1 start_time=2022-12-12T12:00:00Z\nC\n+\n1\n";

const THREE_READS: &[u8] = b"@s0 start_time=2022-12-12T18:00:00Z\nA\n+\n1\n@s2 start_time=2022-12-12T14:00:00Z\nG\n+\n4\n@s1 start_time=2022-12-12T12:00:00Z\nC\n+\n1\n";

#[test]
fn input_has_no_start_times() {
    let text = b"@s0\nA\n+\n1\n@s1\nC\n+\n1\n";
    assert!(matches!(select(text, None, None), Err(OntimeError::MissingTimestamp(_))));
}

#[test]
fn input_has_one_read_with_no_start_time() {
    let text = b"@s0 start_time=2022-12-12T18:00:00Z\nA\n+\n1\n@s1\nC\n+\n1\n";
    assert!(matches!(select(text, None, None), Err(OntimeError::MissingTimestamp(_))));
}

#[test]
fn input_has_one_read_with_no_valid_start_time() {
    let text = b"@s0 start_time=2022-12-12T18:00:00Z\nA\n+\n1\n@s1 start_time=12:00:00Z\nC\n+\n1\n";
    assert!(matches!(select(text, None, None), Err(OntimeError::MissingTimestamp(_))));
}

#[test]
fn no_from_and_to_gets_all_reads() {
    let output = select(TWO_READS, None, None).unwrap();
    assert_eq!(output, TWO_READS);
}

#[test]
fn timeframe_excludes_all_times() {
    let output = select(TWO_READS, Some("400h"), Some("500h")).unwrap();
    assert!(output.is_empty());
}

#[test]
fn timeframe_includes_only_earliest() {
    let output = select(TWO_READS, None, Some("1m")).unwrap();
    assert_eq!(output, b"@s1 start_time=2022-12-12T12:00:00Z\nC\n+\n1\n");
}

#[test]
fn timeframe_includes_only_latest() {
    let output = select(TWO_READS, Some("1m"), None).unwrap();
    assert_eq!(output, b"@s0 start_time=2022-12-12T18:00:00Z\nA\n+\n1\n");
}

#[test]
fn timeframe_excludes_earliest_and_latest() {
    let output = select(THREE_READS, Some("1m"), Some("-2min")).unwrap();
    assert_eq!(output, b"@s2 start_time=2022-12-12T14:00:00Z\nG\n+\n4\n");
}

#[test]
fn timeframe_excludes_earliest_and_latest_using_timestamp() {
    let output =
        select(THREE_READS, Some("2022-12-12T13:00:00Z"), Some("2022-12-12T15:00:00Z")).unwrap();
    assert_eq!(output, b"@s2 start_time=2022-12-12T14:00:00Z\nG\n+\n4\n");
}

#[test]
fn earliest_is_after_latest() {
    assert_eq!(select(TWO_READS, Some("1w"), None), Err(OntimeError::InvertedWindow));
}

#[test]
fn latest_is_before_earliest() {
    assert_eq!(select(TWO_READS, None, Some("-1w")), Err(OntimeError::InvertedWindow));
}

#[test]
fn empty_input_is_an_error_not_an_empty_selection() {
    assert_eq!(select(b"", None, None), Err(OntimeError::EmptyInput));
}

#[test]
fn window_from_relative_latest() {
    let w = resolve_window(None, Some("1m"), &at(12, 0), &at(18, 0)).unwrap();
    assert_eq!(w, Window { earliest: at(12, 0), latest: at(12, 1) });
}

#[test]
fn window_from_both_relative_bounds() {
    let w = resolve_window(Some("1m"), Some("-2m"), &at(12, 0), &at(18, 0)).unwrap();
    assert_eq!(w, Window { earliest: at(12, 1), latest: at(17, 58) });
}

#[test]
fn default_window_is_observed_range() {
    let w = resolve_window(None, None, &at(12, 0), &at(18, 0)).unwrap();
    assert_eq!(w, Window { earliest: at(12, 0), latest: at(18, 0) });
}

#[test]
fn bound_errors() {
    let first = at(12, 0);
    assert_eq!(
        resolve_bound(Some("later"), &first, &first, &first),
        Err(OntimeError::MalformedDuration("later".to_string()))
    );
    let oldest = Timestamp { year: -9999, month: 1, day: 1, hour: 0, minute: 0, second: 0, nanosecond: 0 };
    assert_eq!(
        resolve_bound(Some("-1s"), &oldest, &oldest, &oldest),
        Err(OntimeError::TemporalOverflow)
    );
    let newest = Timestamp { year: 9999, month: 12, day: 31, hour: 23, minute: 59, second: 59, nanosecond: 999_999_999 };
    assert_eq!(
        resolve_bound(Some("1ns"), &newest, &newest, &newest),
        Err(OntimeError::TemporalOverflow)
    );
    assert_eq!(resolve_bound(Some("0s"), &newest, &newest, &newest), Ok(newest));
}

#[test]
fn bound_crosses_days_and_years() {
    let eve = Timestamp { year: 2022, month: 12, day: 31, hour: 23, minute: 30, second: 0, nanosecond: 0 };
    let next = resolve_bound(Some("1h"), &eve, &eve, &eve).unwrap();
    assert_eq!(next, Timestamp { year: 2023, month: 1, day: 1, hour: 0, minute: 30, second: 0, nanosecond: 0 });
    let leap = Timestamp { year: 2024, month: 3, day: 1, hour: 0, minute: 0, second: 0, nanosecond: 0 };
    let back = resolve_bound(Some("-1d"), &leap, &leap, &leap).unwrap();
    assert_eq!(back, Timestamp { year: 2024, month: 2, day: 29, hour: 0, minute: 0, second: 0, nanosecond: 0 });
}

#[test]
fn mask_keeps_exactly_the_window() {
    let ts = [at(18, 0), at(12, 0), at(14, 0), at(13, 0), at(15, 0)];
    let (mask, n) = valid_indices(&ts, &at(13, 0), &at(15, 0));
    assert_eq!(mask, vec![false, false, true, true, true]);
    assert_eq!(n, 3);
}

#[test]
fn window_bounds_are_inclusive() {
    let ts = [at(12, 0), at(12, 1)];
    let (mask, n) = valid_indices(&ts, &at(12, 0), &at(12, 1));
    assert_eq!(mask, vec![true, true]);
    assert_eq!(n, 2);
    let inner = Timestamp { nanosecond: 1, ..at(12, 0) };
    let (mask, n) = valid_indices(&ts, &inner, &at(12, 1));
    assert_eq!(mask, vec![false, true]);
    assert_eq!(n, 1);
}

#[test]
fn empty_timestamps_give_empty_mask() {
    let (mask, n) = valid_indices(&[], &at(12, 0), &at(13, 0));
    assert!(mask.is_empty());
    assert_eq!(n, 0);
}

#[test]
fn extrema_of_start_times() {
    let mut times = StartTimes::new();
    assert_eq!(times.extrema(), Err(OntimeError::EmptyInput));
    for t in [at(14, 0), at(18, 0), at(12, 0)] {
        times.record(Some(t), 0).unwrap();
    }
    assert_eq!(times.len(), 3);
    assert_eq!(times.extrema(), Ok((at(12, 0), at(18, 0))));
    let bad = Timestamp { month: 13, ..at(12, 0) };
    assert_eq!(times.record(Some(bad), 9), Err(OntimeError::MissingTimestamp(9)));
    assert_eq!(times.record(None, 10), Err(OntimeError::MissingTimestamp(10)));
    assert_eq!(times.len(), 3);
}

#[test]
fn selection_stops_after_last_kept_record() {
    let mut s = RecordSelection::new(vec![false, true, false, false], 1, true);
    assert_eq!(s.next_record(), Ok(false));
    assert!(!s.is_complete());
    assert_eq!(s.next_record(), Ok(true));
    assert!(s.is_complete());
    assert_eq!(s.finish(), Ok(()));
}

#[test]
fn selection_without_early_stop_reads_everything() {
    let mut s = RecordSelection::new(vec![true, false], 1, false);
    assert_eq!(s.next_record(), Ok(true));
    assert!(!s.is_complete());
    assert_eq!(s.next_record(), Ok(false));
    assert_eq!(s.written_count(), 1);
    assert_eq!(s.finish(), Ok(()));
}

#[test]
fn selection_detects_a_changed_source() {
    let mut longer = RecordSelection::new(vec![false], 0, true);
    assert_eq!(longer.next_record(), Ok(false));
    assert_eq!(longer.next_record(), Err(OntimeError::IndexMismatch));

    let mut shorter = RecordSelection::new(vec![true, true], 2, true);
    assert_eq!(shorter.next_record(), Ok(true));
    assert_eq!(shorter.finish(), Err(OntimeError::IndexMismatch));
}
