use vstd::prelude::*;
use crate::errors::ProcessingError;
use crate::types::{chars_of, FileAnalysis};

verus! {

pub open spec fn digit_char(d: nat) -> char {
    if d == 0 {
        '0'
    } else if d == 1 {
        '1'
    } else if d == 2 {
        '2'
    } else if d == 3 {
        '3'
    } else if d == 4 {
        '4'
    } else if d == 5 {
        '5'
    } else if d == 6 {
        '6'
    } else if d == 7 {
        '7'
    } else if d == 8 {
        '8'
    } else {
        '9'
    }
}

/// `n` written in decimal, without leading zeros.
pub open spec fn decimal(n: nat) -> Seq<char>
    decreases n,
{
    if n < 10 {
        seq![digit_char(n)]
    } else {
        decimal(n / 10).push(digit_char(n % 10))
    }
}

/// One line per counted character: `    'c': n`.
pub open spec fn frequency_lines(t: Seq<(char, usize)>) -> Seq<char>
    decreases t.len(),
{
    if t.len() == 0 {
        Seq::empty()
    } else {
        frequency_lines(t.drop_last()) + "    '"@ + seq![t.last().0] + "': "@ + decimal(
            t.last().1 as nat,
        ) + "\n"@
    }
}

/// One line per error, its text indented.
pub open spec fn error_lines(e: Seq<ProcessingError>) -> Seq<char>
    decreases e.len(),
{
    if e.len() == 0 {
        Seq::empty()
    } else {
        error_lines(e.drop_last()) + "    "@ + e.last().message@ + "\n"@
    }
}

/// The block of the report for one record; `time` is its processing time as
/// text.
pub open spec fn entry_text(a: FileAnalysis, time: Seq<char>) -> Seq<char> {
    "File: "@ + a.filename@ + "\n"@ + "  Size (bytes): "@ + decimal(a.stats.size_bytes as nat)
        + "\n"@ + "  Words: "@ + decimal(a.stats.word_count as nat) + "\n"@ + "  Lines: "@
        + decimal(a.stats.line_count as nat) + "\n"@ + "  Character frequencies:\n"@
        + frequency_lines(a.stats.char_frequencies@) + (if a.errors@.len() > 0 {
        "  Errors:\n"@ + error_lines(a.errors@)
    } else {
        Seq::empty()
    }) + "  Processing time: "@ + time + "\n\n"@
}

/// The whole report: the blocks of the records in order.
pub open spec fn report_of(a: Seq<FileAnalysis>, times: Seq<String>) -> Seq<char>
    decreases a.len(),
{
    if a.len() == 0 || times.len() < a.len() {
        Seq::empty()
    } else {
        report_of(a.drop_last(), times.subrange(0, a.len() - 1)) + entry_text(
            a.last(),
            times[a.len() - 1]@,
        )
    }
}

/// Relies on collecting characters into a `String`: the text holds them in order.
#[verifier::external_body]
fn string_of(v: Vec<char>) -> (r: String)
    ensures
        r@ == v@,
{
    v.into_iter().collect()
}

fn push_str(out: &mut Vec<char>, s: &str)
    ensures
        final(out)@ == old(out)@ + s@,
{
    let mut c = chars_of(s);
    out.append(&mut c);
}

fn push_decimal(out: &mut Vec<char>, n: u64)
    ensures
        final(out)@ == old(out)@ + decimal(n as nat),
    decreases n,
{
    if n >= 10 {
        push_decimal(out, n / 10);
    }
    let d = n % 10;
    let c = if d == 0 {
        '0'
    } else if d == 1 {
        '1'
    } else if d == 2 {
        '2'
    } else if d == 3 {
        '3'
    } else if d == 4 {
        '4'
    } else if d == 5 {
        '5'
    } else if d == 6 {
        '6'
    } else if d == 7 {
        '7'
    } else if d == 8 {
        '8'
    } else {
        '9'
    };
    out.push(c);
    proof {
        if n >= 10 {
            assert(old(out)@ + decimal(n as nat) =~= old(out)@ + decimal((n / 10) as nat) + seq![c]);
        } else {
            assert(old(out)@ + decimal(n as nat) =~= old(out)@ + seq![c]);
        }
    }
}

/// The decimal text of `n`.
pub fn decimal_text(n: u64) -> (r: String)
    ensures
        r@ == decimal(n as nat),
{
    let mut out: Vec<char> = Vec::new();
    push_decimal(&mut out, n);
    proof {
        assert(out@ =~= decimal(n as nat));
    }
    string_of(out)
}

fn push_entry(out: &mut Vec<char>, a: &FileAnalysis, time: &String)
    ensures
        final(out)@ == old(out)@ + entry_text(*a, time@),
{
    proof {
        reveal_strlit("File: ");
        reveal_strlit("\n");
        reveal_strlit("  Size (bytes): ");
        reveal_strlit("  Words: ");
        reveal_strlit("  Lines: ");
        reveal_strlit("  Character frequencies:\n");
        reveal_strlit("    '");
        reveal_strlit("': ");
        reveal_strlit("  Errors:\n");
        reveal_strlit("    ");
        reveal_strlit("  Processing time: ");
        reveal_strlit("\n\n");
    }
    let ghost start = out@;
    push_str(out, "File: ");
    push_str(out, a.filename.as_str());
    push_str(out, "\n");
    push_str(out, "  Size (bytes): ");
    push_decimal(out, a.stats.size_bytes);
    push_str(out, "\n");
    push_str(out, "  Words: ");
    push_decimal(out, a.stats.word_count as u64);
    push_str(out, "\n");
    push_str(out, "  Lines: ");
    push_decimal(out, a.stats.line_count as u64);
    push_str(out, "\n");
    push_str(out, "  Character frequencies:\n");
    let ghost head = out@;
    let mut i: usize = 0;
    while i < a.stats.char_frequencies.len()
        invariant
            i <= a.stats.char_frequencies@.len(),
            out@ == head + frequency_lines(a.stats.char_frequencies@.subrange(0, i as int)),
        decreases a.stats.char_frequencies.len() - i,
    {
        let (ch, count) = a.stats.char_frequencies[i];
        let ghost before = out@;
        push_str(out, "    '");
        out.push(ch);
        push_str(out, "': ");
        push_decimal(out, count as u64);
        push_str(out, "\n");
        proof {
            let t = a.stats.char_frequencies@.subrange(0, i as int + 1);
            assert(t.drop_last() =~= a.stats.char_frequencies@.subrange(0, i as int));
            assert(out@ =~= before + "    '"@ + seq![ch] + "': "@ + decimal(count as nat) + "\n"@);
        }
        i = i + 1;
    }
    proof {
        assert(a.stats.char_frequencies@.subrange(0, i as int) =~= a.stats.char_frequencies@);
    }
    let ghost mid = out@;
    if a.errors.len() > 0 {
        push_str(out, "  Errors:\n");
        let ghost eh = out@;
        let mut j: usize = 0;
        while j < a.errors.len()
            invariant
                j <= a.errors@.len(),
                out@ == eh + error_lines(a.errors@.subrange(0, j as int)),
            decreases a.errors.len() - j,
        {
            let ghost before = out@;
            push_str(out, "    ");
            push_str(out, a.errors[j].message.as_str());
            push_str(out, "\n");
            proof {
                let e = a.errors@.subrange(0, j as int + 1);
                assert(e.drop_last() =~= a.errors@.subrange(0, j as int));
            }
            j = j + 1;
        }
        proof {
            assert(a.errors@.subrange(0, j as int) =~= a.errors@);
        }
    }
    push_str(out, "  Processing time: ");
    push_str(out, time.as_str());
    push_str(out, "\n\n");
    proof {
        assert(out@ =~= start + entry_text(*a, time@));
    }
}

/// The report on `analyses`: for each record, in order, its name, size, word
/// and line counts, one line per counted character, its errors if it has any,
/// and `times` at the same position as its processing time.
pub fn report_text(analyses: &Vec<FileAnalysis>, times: &Vec<String>) -> (r: String)
    requires
        times@.len() == analyses@.len(),
    ensures
        r@ == report_of(analyses@, times@),
{
    let mut out: Vec<char> = Vec::new();
    let mut i: usize = 0;
    while i < analyses.len()
        invariant
            i <= analyses@.len(),
            times@.len() == analyses@.len(),
            out@ == report_of(analyses@.subrange(0, i as int), times@.subrange(0, i as int)),
        decreases analyses.len() - i,
    {
        push_entry(&mut out, &analyses[i], &times[i]);
        proof {
            let a = analyses@.subrange(0, i as int + 1);
            let t = times@.subrange(0, i as int + 1);
            assert(a.drop_last() =~= analyses@.subrange(0, i as int));
            assert(t.subrange(0, i as int) =~= times@.subrange(0, i as int));
        }
        i = i + 1;
    }
    proof {
        assert(analyses@.subrange(0, i as int) =~= analyses@);
        assert(times@.subrange(0, i as int) =~= times@);
    }
    string_of(out)
}

} // verus!
