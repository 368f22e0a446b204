use vstd::prelude::*;

verus! {

/// Unicode's White_Space property, as `char::is_whitespace` documents it.
pub open spec fn is_white_space(c: char) -> bool {
    let u = c as u32;
    (0x09 <= u && u <= 0x0d) || u == 0x20 || u == 0x85 || u == 0xa0 || u == 0x1680
        || (0x2000 <= u && u <= 0x200a) || u == 0x2028 || u == 0x2029 || u == 0x202f
        || u == 0x205f || u == 0x3000
}

/// Whether a word starts at position `i`: a non-space after a space or at the start.
pub open spec fn starts_word(s: Seq<char>, i: int) -> bool {
    !is_white_space(s[i]) && (i == 0 || is_white_space(s[i - 1]))
}

/// Number of whitespace-separated words among the first `n` characters of `s`.
pub open spec fn words_upto(s: Seq<char>, n: int) -> nat
    decreases n,
{
    if n <= 0 {
        0
    } else {
        words_upto(s, n - 1) + if starts_word(s, n - 1) { 1nat } else { 0nat }
    }
}

pub open spec fn word_count_of(s: Seq<char>) -> nat {
    words_upto(s, s.len() as int)
}

/// Number of times `c` occurs among the first `n` characters of `s`.
pub open spec fn occurrences_upto(s: Seq<char>, c: char, n: int) -> nat
    decreases n,
{
    if n <= 0 {
        0
    } else {
        occurrences_upto(s, c, n - 1) + if s[n - 1] == c { 1nat } else { 0nat }
    }
}

pub open spec fn occurrences(s: Seq<char>, c: char) -> nat {
    occurrences_upto(s, c, s.len() as int)
}

/// Lines as `str::lines` yields them: split at each newline, where a final
/// newline does not begin another line.
pub open spec fn line_count_of(s: Seq<char>) -> nat {
    occurrences(s, '\n') + if s.len() > 0 && s.last() != '\n' { 1nat } else { 0nat }
}

/// Bytes taken by `c` in UTF-8.
pub open spec fn utf8_width(c: char) -> nat {
    let u = c as u32;
    if u < 0x80 {
        1
    } else if u < 0x800 {
        2
    } else if u < 0x10000 {
        3
    } else {
        4
    }
}

/// Bytes taken by the first `n` characters of `s` in UTF-8.
pub open spec fn utf8_len_upto(s: Seq<char>, n: int) -> nat
    decreases n,
{
    if n <= 0 {
        0
    } else {
        utf8_len_upto(s, n - 1) + utf8_width(s[n - 1])
    }
}

pub open spec fn utf8_len(s: Seq<char>) -> nat {
    utf8_len_upto(s, s.len() as int)
}

pub fn is_whitespace_char(c: char) -> (r: bool)
    ensures
        r == is_white_space(c),
{
    let u = c as u32;
    (0x09 <= u && u <= 0x0d) || u == 0x20 || u == 0x85 || u == 0xa0 || u == 0x1680
        || (0x2000 <= u && u <= 0x200a) || u == 0x2028 || u == 0x2029 || u == 0x202f
        || u == 0x205f || u == 0x3000
}

proof fn lemma_words_bounded(s: Seq<char>, n: int)
    requires
        0 <= n <= s.len(),
    ensures
        words_upto(s, n) <= n,
    decreases n,
{
    if n > 0 {
        lemma_words_bounded(s, n - 1);
    }
}

proof fn lemma_occurrences_bounded(s: Seq<char>, c: char, n: int)
    requires
        0 <= n <= s.len(),
    ensures
        occurrences_upto(s, c, n) <= n,
    decreases n,
{
    if n > 0 {
        lemma_occurrences_bounded(s, c, n - 1);
    }
}

proof fn lemma_utf8_bounded(s: Seq<char>, n: int)
    requires
        0 <= n <= s.len(),
    ensures
        utf8_len_upto(s, n) <= 4 * n,
    decreases n,
{
    if n > 0 {
        lemma_utf8_bounded(s, n - 1);
    }
}

/// Number of whitespace-separated words, as `split_whitespace` counts them.
pub fn count_words(s: &Vec<char>) -> (r: usize)
    ensures
        r == word_count_of(s@),
{
    let mut count: usize = 0;
    let mut i: usize = 0;
    while i < s.len()
        invariant
            i <= s.len(),
            count == words_upto(s@, i as int),
        decreases s.len() - i,
    {
        proof {
            lemma_words_bounded(s@, i as int + 1);
        }
        if !is_whitespace_char(s[i]) && (i == 0 || is_whitespace_char(s[i - 1])) {
            count = count + 1;
        }
        i = i + 1;
    }
    count
}

/// Number of lines, as `str::lines` counts them.
pub fn count_lines(s: &Vec<char>) -> (r: usize)
    ensures
        r == line_count_of(s@),
{
    let mut newlines: usize = 0;
    let mut i: usize = 0;
    while i < s.len()
        invariant
            i <= s.len(),
            newlines == occurrences_upto(s@, '\n', i as int),
        decreases s.len() - i,
    {
        proof {
            lemma_occurrences_bounded(s@, '\n', i as int + 1);
        }
        if s[i] == '\n' {
            newlines = newlines + 1;
        }
        i = i + 1;
    }
    proof {
        if s@.len() > 0 {
            lemma_occurrences_bounded(s@, '\n', s@.len() - 1);
        }
    }
    if s.len() > 0 && s[s.len() - 1] != '\n' {
        newlines + 1
    } else {
        newlines
    }
}

/// Size of the text in bytes once encoded as UTF-8.
pub fn byte_size(s: &Vec<char>) -> (r: u64)
    requires
        4 * s@.len() <= u64::MAX,
    ensures
        r == utf8_len(s@),
{
    let mut total: u64 = 0;
    let mut i: usize = 0;
    while i < s.len()
        invariant
            i <= s.len(),
            total == utf8_len_upto(s@, i as int),
            4 * s@.len() <= u64::MAX,
        decreases s.len() - i,
    {
        proof {
            lemma_utf8_bounded(s@, i as int + 1);
        }
        let u = s[i] as u32;
        let w: u64 = if u < 0x80 {
            1
        } else if u < 0x800 {
            2
        } else if u < 0x10000 {
            3
        } else {
            4
        };
        assert(w == utf8_width(s@[i as int]));
        assert(utf8_len_upto(s@, i as int + 1) == total + w);
        total = total + w;
        i = i + 1;
    }
    total
}


/// `t` counts the characters of `s`: one entry per distinct character, each with
/// the number of times it occurs.
pub open spec fn is_frequency_table(t: Seq<(char, usize)>, s: Seq<char>) -> bool {
    &&& forall|i: int, j: int| 0 <= i < j < t.len() ==> t[i].0 != t[j].0
    &&& forall|i: int| 0 <= i < t.len() ==> t[i].1 == occurrences(s, t[i].0) && t[i].1 > 0
    &&& forall|k: int|
        0 <= k < s.len() ==> exists|i: int| 0 <= i < t.len() && (#[trigger] t[i]).0 == #[trigger] s[k]
}

proof fn lemma_occurrences_positive(s: Seq<char>, c: char, k: int, n: int)
    requires
        0 <= k < n <= s.len(),
        s[k] == c,
    ensures
        occurrences_upto(s, c, n) > 0,
    decreases n,
{
    if k < n - 1 {
        lemma_occurrences_positive(s, c, k, n - 1);
    }
}

/// How often each character occurs, one entry per distinct character in order of
/// first appearance.
pub fn char_frequencies(s: &Vec<char>) -> (r: Vec<(char, usize)>)
    ensures
        is_frequency_table(r@, s@),
{
    let mut table: Vec<(char, usize)> = Vec::new();
    let mut i: usize = 0;
    while i < s.len()
        invariant
            i <= s.len(),
            forall|a: int, b: int| 0 <= a < b < table@.len() ==> table@[a].0 != table@[b].0,
            forall|a: int|
                0 <= a < table@.len() ==> table@[a].1 == occurrences_upto(s@, table@[a].0, i as int)
                    && table@[a].1 > 0,
            forall|k: int|
                0 <= k < i ==> exists|a: int|
                    0 <= a < table@.len() && (#[trigger] table@[a]).0 == #[trigger] s@[k],
            forall|c: char|
                (forall|a: int| 0 <= a < table@.len() ==> table@[a].0 != c) ==> #[trigger] occurrences_upto(
                    s@,
                    c,
                    i as int,
                ) == 0,
        decreases s.len() - i,
    {
        let c = s[i];
        let mut j: usize = 0;
        while j < table.len() && table[j].0 != c
            invariant
                j <= table@.len(),
                forall|a: int| 0 <= a < j ==> table@[a].0 != c,
            decreases table.len() - j,
        {
            j = j + 1;
        }
        let found = j < table.len();
        let ghost old_table = table@;
        proof {
            lemma_occurrences_bounded(s@, c, i as int);
        }
        if found {
            let n = table[j].1;
            table.set(j, (c, n + 1));
        } else {
            table.push((c, 1));
        }
        proof {
            let ni = i as int + 1;
            assert forall|a: int| 0 <= a < table@.len() implies table@[a].1 == occurrences_upto(
                s@,
                table@[a].0,
                ni,
            ) && table@[a].1 > 0 by {
                if a < old_table.len() {
                    assert(occurrences_upto(s@, old_table[a].0, ni) == occurrences_upto(
                        s@,
                        old_table[a].0,
                        i as int,
                    ) + if s@[i as int] == old_table[a].0 { 1nat } else { 0nat });
                } else {
                    assert(occurrences_upto(s@, c, ni) == occurrences_upto(s@, c, i as int) + 1);
                }
            }
            assert forall|x: char|
                (forall|a: int| 0 <= a < table@.len() ==> table@[a].0 != x) implies #[trigger] occurrences_upto(
                s@,
                x,
                ni,
            ) == 0 by {
                if found {
                    assert(table@[j as int].0 == c);
                } else {
                    assert(table@[old_table.len() as int].0 == c);
                }
                assert forall|a: int| 0 <= a < old_table.len() implies old_table[a].0 != x by {
                    assert(table@[a].0 == old_table[a].0);
                }
                assert(x != c);
                assert(occurrences_upto(s@, x, ni) == occurrences_upto(s@, x, i as int));
            }
            assert forall|k: int| 0 <= k < ni implies exists|a: int|
                0 <= a < table@.len() && (#[trigger] table@[a]).0 == #[trigger] s@[k] by {
                if k < i {
                    let a = choose|a: int|
                        0 <= a < old_table.len() && (#[trigger] old_table[a]).0 == s@[k];
                    assert(table@[a].0 == s@[k]);
                } else if found {
                    assert(table@[j as int].0 == s@[k]);
                } else {
                    assert(table@[old_table.len() as int].0 == s@[k]);
                }
            }
        }
        i = i + 1;
    }
    proof {
        assert forall|k: int| 0 <= k < s@.len() implies exists|a: int|
            0 <= a < table@.len() && (#[trigger] table@[a]).0 == #[trigger] s@[k] by {
            assert(k < i);
            let a = choose|a: int| 0 <= a < table@.len() && (#[trigger] table@[a]).0 == s@[k];
            assert(table@[a].0 == s@[k]);
        }
        assert forall|a: int| 0 <= a < table@.len() implies table@[a].1 == occurrences(
            s@,
            table@[a].0,
        ) && table@[a].1 > 0 by {}
    }
    table
}

} // verus!
