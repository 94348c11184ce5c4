//! What the results list shows besides its rows: the summary line, the width
//! of the line-number column, and the row the list is measured by.

use vstd::prelude::*;
use vstd::string::StringExecFns;
use crate::location::LocationMatch;
use crate::entries::Entry;
use crate::results_list::{PanelResults, first_match_row};

verus! {

/// The character of the decimal digit `d`.
pub open spec fn digit_char(d: nat) -> char {
    if d == 0 { '0' }
    else if d == 1 { '1' }
    else if d == 2 { '2' }
    else if d == 3 { '3' }
    else if d == 4 { '4' }
    else if d == 5 { '5' }
    else if d == 6 { '6' }
    else if d == 7 { '7' }
    else if d == 8 { '8' }
    else { '9' }
}

/// `n` written in decimal, without leading zeros.
pub open spec fn decimal(n: nat) -> Seq<char>
    decreases n,
{
    if n < 10 {
        seq![digit_char(n)]
    } else {
        decimal(n / 10).push(digit_char(n % 10))
    }
}

/// The number of decimal digits of `n`.
pub open spec fn digit_count(n: nat) -> nat
    decreases n,
{
    if n < 10 {
        1
    } else {
        1 + digit_count(n / 10)
    }
}

/// The summary line over a results list: "N result(s) in M file(s)".
pub open spec fn summary_text(match_count: nat, file_count: nat) -> Seq<char> {
    decimal(match_count) + " "@ + (if match_count == 1 { "result"@ } else { "results"@ }) + " in "@
        + decimal(file_count) + " "@ + (if file_count == 1 { "file"@ } else { "files"@ })
}

/// The largest line number among the first `n` matches, 0 when there are none.
pub open spec fn max_line_number_of(matches: Seq<LocationMatch>, n: nat) -> nat
    decreases n,
{
    if n == 0 {
        0
    } else {
        let before = max_line_number_of(matches, (n - 1) as nat);
        let here = matches[n - 1].line_number as nat;
        if here > before {
            here
        } else {
            before
        }
    }
}

/// The number of header rows in `entries`.
pub open spec fn header_count(entries: Seq<Entry>) -> nat
    decreases entries.len(),
{
    if entries.len() == 0 {
        0
    } else {
        header_count(entries.drop_last()) + if entries.last() is Header { 1nat } else { 0nat }
    }
}

/// The text of the digit `d`.
fn digit_str(d: usize) -> (s: &'static str)
    requires
        d < 10,
    ensures
        s@ == seq![digit_char(d as nat)],
{
    proof {
        reveal_strlit("0");
        reveal_strlit("1");
        reveal_strlit("2");
        reveal_strlit("3");
        reveal_strlit("4");
        reveal_strlit("5");
        reveal_strlit("6");
        reveal_strlit("7");
        reveal_strlit("8");
        reveal_strlit("9");
    }
    if d == 0 {
        let s = "0";
        assert(s@ =~= seq!['0']);
        s
    } else if d == 1 {
        let s = "1";
        assert(s@ =~= seq!['1']);
        s
    } else if d == 2 {
        let s = "2";
        assert(s@ =~= seq!['2']);
        s
    } else if d == 3 {
        let s = "3";
        assert(s@ =~= seq!['3']);
        s
    } else if d == 4 {
        let s = "4";
        assert(s@ =~= seq!['4']);
        s
    } else if d == 5 {
        let s = "5";
        assert(s@ =~= seq!['5']);
        s
    } else if d == 6 {
        let s = "6";
        assert(s@ =~= seq!['6']);
        s
    } else if d == 7 {
        let s = "7";
        assert(s@ =~= seq!['7']);
        s
    } else if d == 8 {
        let s = "8";
        assert(s@ =~= seq!['8']);
        s
    } else {
        let s = "9";
        assert(s@ =~= seq!['9']);
        s
    }
}

/// Appends `n` in decimal to `text`.
fn push_decimal(text: &mut String, n: usize)
    ensures
        final(text)@ == old(text)@ + decimal(n as nat),
    decreases n,
{
    if n >= 10 {
        push_decimal(text, n / 10);
        let digit = digit_str(n % 10);
        text.append(digit);
        assert(old(text)@ + decimal((n / 10) as nat) + seq![digit_char((n % 10) as nat)]
            =~= old(text)@ + decimal(n as nat));
    } else {
        let digit = digit_str(n);
        text.append(digit);
    }
}

/// `n` written in decimal.
pub fn decimal_string(n: usize) -> (text: String)
    ensures
        text@ == decimal(n as nat),
        value_of_digits(text@) == n,
        forall|i: int| 0 <= i < text@.len() ==> '0' <= #[trigger] text@[i] <= '9',
        text@.len() > 1 ==> text@[0] != '0',
{
    proof {
        decimal_spells_the_number(n as nat);
    }
    let mut text = String::new();
    push_decimal(&mut text, n);
    assert(Seq::<char>::empty() + decimal(n as nat) =~= decimal(n as nat));
    text
}

/// The summary line over a results list, such as "3 results in 2 files".
pub fn results_summary(match_count: usize, file_count: usize) -> (text: String)
    ensures
        text@ == summary_text(match_count as nat, file_count as nat),
{
    let mut text = decimal_string(match_count);
    text.append(" ");
    text.append(if match_count == 1 { "result" } else { "results" });
    text.append(" in ");
    push_decimal(&mut text, file_count);
    text.append(" ");
    text.append(if file_count == 1 { "file" } else { "files" });
    text
}

/// How many digits the line-number column leaves room for: those of the
/// largest line number, and at least one.
pub fn line_number_digits(max_line_number: u32) -> (digits: u32)
    ensures
        digits == digit_count(if max_line_number == 0 { 1nat } else { max_line_number as nat }),
        digits >= 1,
        pow10((digits - 1) as nat) <= (if max_line_number == 0 { 1nat } else { max_line_number as nat }),
        (if max_line_number == 0 { 1nat } else { max_line_number as nat }) < pow10(digits as nat),
{
    proof {
        digit_count_counts_digits(if max_line_number == 0 { 1nat } else { max_line_number as nat });
    }
    let mut n: u32 = if max_line_number == 0 { 1 } else { max_line_number };
    let ghost start = n as nat;
    let mut digits: u32 = 1;
    proof {
        lemma_digit_count_at_most(start);
    }
    while n >= 10
        invariant
            1 <= digits,
            n >= 1,
            digit_count(start) == digits - 1 + digit_count(n as nat),
            digit_count(start) <= start,
            start <= u32::MAX,
        decreases n,
    {
        proof {
            lemma_digit_count_at_most((n / 10) as nat);
            assert(digit_count(n as nat) == 1 + digit_count((n / 10) as nat));
        }
        n = n / 10;
        digits = digits + 1;
    }
    digits
}

proof fn lemma_digit_count_at_most(n: nat)
    requires
        n >= 1,
    ensures
        1 <= digit_count(n) <= n,
    decreases n,
{
    if n >= 10 {
        lemma_digit_count_at_most(n / 10);
    }
}

impl PanelResults {
    /// The largest line number among the matches, 0 when there are none.
    pub fn max_line_number(&self) -> (max: u32)
        ensures
            max as nat == max_line_number_of(self.matches@, self.matches@.len()),
            forall|k: int| 0 <= k < self.matches@.len() ==> (#[trigger] self.matches@[k]).line_number <= max,
            self.matches@.len() == 0 ==> max == 0,
            self.matches@.len() > 0 ==> exists|k: int| 0 <= k < self.matches@.len()
                && (#[trigger] self.matches@[k]).line_number == max,
    {
        proof {
            max_line_number_is_the_largest(self.matches@);
        }
        let mut max: u32 = 0;
        let mut i: usize = 0;
        while i < self.matches.len()
            invariant
                i <= self.matches@.len(),
                max as nat == max_line_number_of(self.matches@, i as nat),
            decreases self.matches@.len() - i,
        {
            if self.matches[i].line_number > max {
                max = self.matches[i].line_number;
            }
            i += 1;
        }
        max
    }

    /// The row that the list measures its row height by: the first match
    /// row (header rows are shorter), or 0 when there is none.
    pub fn first_match_index(&self) -> (index: usize)
        ensures
            index as int == match first_match_row(self.entries@) {
                Some(p) => p,
                None => 0,
            },
    {
        let mut i: usize = 0;
        while i < self.entries.len()
            invariant
                i <= self.entries@.len(),
                forall|j: int| 0 <= j < i ==> !(self.entries@[j] is Match),
            decreases self.entries@.len() - i,
        {
            if let Entry::Match(_) = self.entries[i] {
                proof {
                    let c = choose|c: int| crate::results_list::is_match_row(self.entries@, c)
                        && forall|j: int| 0 <= j < c ==> !crate::results_list::is_match_row(self.entries@, j);
                    assert(crate::results_list::is_match_row(self.entries@, i as int));
                    assert(c == i as int) by {
                        if c > i as int {
                            assert(!crate::results_list::is_match_row(self.entries@, i as int));
                        }
                    }
                }
                return i;
            }
            i += 1;
        }
        proof {
            if exists|c: int| crate::results_list::is_match_row(self.entries@, c) {
                let c = choose|c: int| crate::results_list::is_match_row(self.entries@, c);
                assert(!(self.entries@[c] is Match));
            }
        }
        0
    }

    /// The number of file header rows.
    pub fn file_count(&self) -> (count: usize)
        ensures
            count as nat == header_count(self.entries@),
    {
        let mut count: usize = 0;
        let mut i: usize = 0;
        while i < self.entries.len()
            invariant
                i <= self.entries@.len(),
                count as nat == header_count(self.entries@.take(i as int)),
                count <= i,
            decreases self.entries@.len() - i,
        {
            proof {
                let t = self.entries@.take(i + 1);
                assert(t.drop_last() == self.entries@.take(i as int));
            }
            if let Entry::Header(_) = self.entries[i] {
                count += 1;
            }
            i += 1;
        }
        assert(self.entries@.take(self.entries@.len() as int) == self.entries@);
        count
    }

    /// The summary line over the rows: the number of matches and of files.
    pub fn summary(&self) -> (text: String)
        ensures
            text@ == summary_text(self.matches@.len(), header_count(self.entries@)),
    {
        results_summary(self.matches.len(), self.file_count())
    }
}

proof fn lemma_max_line_number_prefix(matches: Seq<LocationMatch>, n: nat)
    requires
        n <= matches.len(),
    ensures
        forall|k: int| 0 <= k < n ==> (#[trigger] matches[k]).line_number <= max_line_number_of(matches, n),
        n == 0 ==> max_line_number_of(matches, n) == 0,
        n > 0 ==> exists|k: int| 0 <= k < n && (#[trigger] matches[k]).line_number == max_line_number_of(matches, n),
    decreases n,
{
    if n > 0 {
        lemma_max_line_number_prefix(matches, (n - 1) as nat);
        let before = max_line_number_of(matches, (n - 1) as nat);
        let here = matches[n - 1].line_number as nat;
        if here <= before && n > 1 {
            let k = choose|k: int| 0 <= k < n - 1 && (#[trigger] matches[k]).line_number == before;
            assert(matches[k].line_number == max_line_number_of(matches, n));
        } else {
            assert(matches[n - 1].line_number == max_line_number_of(matches, n));
        }
    }
}

/// The largest line number is the largest: no match has a larger line
/// number, it is 0 when there are no matches, and otherwise it is the line
/// number of one of them.
pub proof fn max_line_number_is_the_largest(matches: Seq<LocationMatch>)
    ensures
        forall|k: int| 0 <= k < matches.len() ==> (#[trigger] matches[k]).line_number
            <= max_line_number_of(matches, matches.len()),
        matches.len() == 0 ==> max_line_number_of(matches, matches.len()) == 0,
        matches.len() > 0 ==> exists|k: int| 0 <= k < matches.len()
            && (#[trigger] matches[k]).line_number == max_line_number_of(matches, matches.len()),
{
    lemma_max_line_number_prefix(matches, matches.len());
}

/// The summary line says "result" only for a single match and "file" only
/// for a single file: it is the match count, " result in " or " results in ",
/// the file count, then " file" or " files". A single match in a single file
/// reads "1 result in 1 file".
pub proof fn summary_uses_singular_only_for_one(match_count: nat, file_count: nat)
    ensures
        summary_text(match_count, file_count) == decimal(match_count)
            + (if match_count == 1 { " result in "@ } else { " results in "@ })
            + decimal(file_count) + (if file_count == 1 { " file"@ } else { " files"@ }),
        match_count != 1 ==> summary_text(match_count, file_count).take(decimal(match_count).len() + 12int)
            == decimal(match_count) + " results in "@,
        match_count == 1 ==> summary_text(match_count, file_count).take(12) == "1 result in "@,
        summary_text(1, 1) == "1 result in 1 file"@,
{
    reveal_strlit(" ");
    reveal_strlit("result");
    reveal_strlit("results");
    reveal_strlit(" in ");
    reveal_strlit("file");
    reveal_strlit("files");
    reveal_strlit(" result in ");
    reveal_strlit(" results in ");
    reveal_strlit(" file");
    reveal_strlit(" files");
    reveal_strlit("1 result in ");
    reveal_strlit("1 result in 1 file");
    let w = if match_count == 1 { "result"@ } else { "results"@ };
    let w2 = if file_count == 1 { "file"@ } else { "files"@ };
    let mid = if match_count == 1 { " result in "@ } else { " results in "@ };
    let tail = if file_count == 1 { " file"@ } else { " files"@ };
    assert(" "@ + w + " in "@ =~= mid);
    assert(" "@ + w2 =~= tail);
    let d = decimal(match_count);
    let e = decimal(file_count);
    assert(d + " "@ + w + " in "@ + e + " "@ + w2 =~= d + mid + e + tail);
    if match_count != 1 {
        assert((d + mid + e + tail).take(d.len() + 12int) =~= d + " results in "@);
    } else {
        assert(d =~= seq!['1']);
        assert((d + mid + e + tail).take(12) =~= "1 result in "@);
    }
    assert(decimal(1) =~= seq!['1']);
    assert(decimal(1) + " result in "@ + decimal(1) + " file"@ =~= "1 result in 1 file"@);
}

/// Ten to the power `k`.
pub open spec fn pow10(k: nat) -> nat
    decreases k,
{
    if k == 0 {
        1
    } else {
        10 * pow10((k - 1) as nat)
    }
}

/// The number that the decimal digits `s` spell.
pub open spec fn value_of_digits(s: Seq<char>) -> int
    decreases s.len(),
{
    if s.len() == 0 {
        0
    } else {
        value_of_digits(s.drop_last()) * 10 + (s.last() as int - '0' as int)
    }
}

/// The digit count is the number of decimal digits: a number of `d` digits
/// lies between ten to the `d - 1` and ten to the `d`.
pub proof fn digit_count_counts_digits(n: nat)
    requires
        n >= 1,
    ensures
        pow10((digit_count(n) - 1) as nat) <= n < pow10(digit_count(n)),
    decreases n,
{
    if n >= 10 {
        digit_count_counts_digits(n / 10);
        let k = (digit_count(n / 10) - 1) as nat;
        assert(pow10(k + 1) == 10 * pow10(k));
        assert(pow10(k + 2) == 10 * pow10(k + 1));
        let p = pow10(k);
        let q = pow10(k + 1);
        assert(10 * p <= n && n < 10 * q) by (nonlinear_arith)
            requires
                p <= n / 10,
                n / 10 < q,
                n >= 10;
    }
}

/// `decimal(n)` writes `n` in decimal: its characters are digits, they spell
/// `n`, there are as many as `n` has digits, and there is no leading zero.
pub proof fn decimal_spells_the_number(n: nat)
    ensures
        forall|i: int| 0 <= i < decimal(n).len() ==> '0' <= #[trigger] decimal(n)[i] <= '9',
        value_of_digits(decimal(n)) == n,
        decimal(n).len() == digit_count(n),
        decimal(n).len() > 1 ==> decimal(n)[0] != '0',
    decreases n,
{
    if n >= 10 {
        decimal_spells_the_number(n / 10);
        let d = decimal(n / 10);
        let r = d.push(digit_char(n % 10));
        assert(r.drop_last() == d);
        assert(r[0] == d[0]);
        assert(digit_char(n % 10) as int - '0' as int == n % 10);
        assert(n == (n / 10) * 10 + n % 10);
        if d.len() == 1 {
            assert(d[0] != '0') by {
                assert(value_of_digits(d) == value_of_digits(d.drop_last()) * 10 + (d.last() as int - '0' as int));
                assert(d.drop_last().len() == 0);
            }
        }
    } else {
        let r = seq![digit_char(n)];
        assert(r.drop_last() =~= Seq::<char>::empty());
        assert(value_of_digits(r.drop_last()) == 0);
        assert(digit_char(n) as int - '0' as int == n);
        assert(r.last() == digit_char(n));
    }
}

} // verus!
