//! Reading the total media duration out of the slicing tool's probe output.
//!
//! The tool reports the duration on its diagnostic stream in a line such as
//! `  Duration: 00:25:30.50, start: 0.000000, bitrate: 1234 kb/s`.  The
//! prober scans the output line by line, takes the text after the first
//! `Duration:` marker up to the next comma, trims it and parses it as
//! `HH:MM:SS.cc`.  Output without such a parsable line leaves the whole
//! pipeline without a mode decision, so that is the fatal
//! `DurationUnavailable`.

use vstd::prelude::*;

use crate::model::ExtractionError;
use crate::text::chars_of;
use crate::text::find_char;
use crate::text::find_char_idx;
use crate::text::find_sub;
use crate::text::find_sub_idx;
use crate::text::lemma_find_char_idx;
use crate::text::lemma_find_sub_idx;
use crate::text::subvec;
use crate::text::trimmed;
use crate::text::trimmed_chars;
use crate::time::ffmpeg_duration_ms;
use crate::time::parse_ffmpeg_duration_chars;

verus! {

/// The marker that introduces the duration on a probe output line.
pub open spec fn duration_tag() -> Seq<char> {
    "Duration:"@
}

/// The first probe line, with one trailing carriage return stripped.
pub open spec fn first_line(s: Seq<char>) -> Seq<char> {
    let nl = find_char_idx(s, '\n');
    let raw = if nl < 0 {
        s
    } else {
        s.take(nl)
    };
    if raw.len() > 0 && raw.last() == '\r' {
        raw.drop_last()
    } else {
        raw
    }
}

/// The duration string carried by one line: the text after the first
/// `Duration:` marker, up to the next comma, trimmed.
pub open spec fn line_duration_str(line: Seq<char>) -> Seq<char> {
    let d = find_sub_idx(line, duration_tag());
    let after = line.skip(d + duration_tag().len());
    let c = find_char_idx(after, ',');
    let cut = if c < 0 {
        after
    } else {
        after.take(c)
    };
    trimmed(cut)
}

/// The duration (in milliseconds) denoted by the probe output: the first
/// line carrying a `Duration:` marker decides, and its duration string must
/// parse.
pub open spec fn probe_duration_ms(s: Seq<char>) -> Option<int>
    decreases s.len(),
    via probe_duration_ms_decreases
{
    let nl = find_char_idx(s, '\n');
    let line = first_line(s);
    if find_sub_idx(line, duration_tag()) >= 0 {
        ffmpeg_duration_ms(line_duration_str(line))
    } else if nl < 0 {
        None
    } else {
        probe_duration_ms(s.skip(nl + 1))
    }
}

#[via_fn]
proof fn probe_duration_ms_decreases(s: Seq<char>) {
    lemma_find_char_idx(s, '\n');
}

/// Read the total media duration from the probe output.
pub fn duration_from_probe_output(stderr: &str) -> (r: Result<u64, ExtractionError>)
    ensures
        match r {
            Ok(d) => probe_duration_ms(stderr@) == Some(d as int) && d < 3_700_000_000_000_000,
            Err(e) => probe_duration_ms(stderr@) is None && e matches
                ExtractionError::DurationUnavailable,
        },
{
    let cs: Vec<char> = chars_of(stderr);
    let tag: Vec<char> = chars_of("Duration:");
    let n: usize = cs.len();
    let mut pos: usize = 0;
    proof {
        assert(cs@.skip(0) =~= cs@);
    }
    loop
        invariant
            pos <= n,
            n == cs@.len(),
            cs@ == stderr@,
            tag@ == duration_tag(),
            probe_duration_ms(cs@.skip(pos as int)) == probe_duration_ms(cs@),
        decreases n - pos,
    {
        let rem: Vec<char> = subvec(&cs, pos, n);
        proof {
            assert(rem@ =~= cs@.skip(pos as int));
        }
        let nl_opt: Option<usize> = find_char(&rem, '\n');
        proof {
            lemma_find_char_idx(rem@, '\n');
        }
        let raw: Vec<char> = match nl_opt {
            Some(nl) => subvec(&rem, 0, nl),
            None => subvec(&rem, 0, rem.len()),
        };
        proof {
            match nl_opt {
                Some(nl) => {
                    assert(raw@ =~= rem@.take(nl as int));
                },
                None => {
                    assert(raw@ =~= rem@);
                },
            }
        }
        let line: Vec<char> = if raw.len() > 0 && raw[raw.len() - 1] == '\r' {
            let l = subvec(&raw, 0, raw.len() - 1);
            proof {
                assert(l@ =~= raw@.drop_last());
            }
            l
        } else {
            raw
        };
        proof {
            assert(line@ == first_line(rem@));
        }
        if let Some(d) = find_sub(&line, &tag) {
            proof {
                lemma_find_sub_idx(line@, tag@);
            }
            let after: Vec<char> = subvec(&line, d + tag.len(), line.len());
            proof {
                assert(after@ =~= line@.skip(d + tag@.len()));
            }
            proof {
                lemma_find_char_idx(after@, ',');
            }
            let cut: Vec<char> = match find_char(&after, ',') {
                Some(c) => {
                    let v = subvec(&after, 0, c);
                    proof {
                        assert(v@ =~= after@.take(c as int));
                    }
                    v
                },
                None => {
                    let v = subvec(&after, 0, after.len());
                    proof {
                        assert(v@ =~= after@);
                    }
                    v
                },
            };
            proof {
                assert(cut@.len() <= after@.len());
            }
            let tstr: Vec<char> = trimmed_chars(&cut);
            proof {
                assert(tstr@ == line_duration_str(line@));
            }
            return parse_ffmpeg_duration_chars(&tstr);
        }
        match nl_opt {
            Some(nl) => {
                proof {
                    assert(rem@.skip(nl + 1 as int) =~= cs@.skip(pos + nl + 1 as int));
                }
                pos = pos + nl + 1;
            },
            None => {
                return Err(ExtractionError::DurationUnavailable);
            },
        }
    }
}

} // verus!
