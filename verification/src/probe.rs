//! The signal probe: which input carries the guitar, and how levels and the
//! configuration are written.
//!
//! A level is the word of a 32-bit IEEE float that is not negative and not a
//! NaN. Among such floats the word orders as the float does.

use vstd::prelude::*;
use vstd::string::*;
use crate::endpoint::{line_preference, line_preferences, preference_key, preferences_spec, DataFlow};
use crate::text::{
    decimal, has, join, lemma_position_is, lines, occurs_at, push_decimal, trim_end, trim_start,
    TrimSet,
};

verus! {

/// The width of a level bar.
pub const BAR_WIDTH: usize = 25;

/// The level above which an input counts as active, 0.001.
pub const NOISE_FLOOR: u32 = 0x3A83_126F;

/// The configuration that makes `name` the preferred input.
pub open spec fn config_text(name: Seq<char>) -> Seq<char> {
    "{\n  \"preferred_input_device\": \""@ + name + "\"\n}\n"@
}

/// The configuration that makes `name` the preferred input.
pub fn config_json(name: &str) -> (r: String)
    ensures
        r@ == config_text(name@),
{
    let mut s = join("{\n  \"preferred_input_device\": \"", name);
    s.append("\"\n}\n");
    s
}

/// The line of the configuration that names the preferred input.
spec fn config_line(name: Seq<char>) -> Seq<char> {
    "  \"preferred_input_device\": \""@ + name + "\""@
}

proof fn lemma_config_lines(name: Seq<char>)
    requires
        !name.contains('\n'),
    ensures
        lines(config_text(name)) == seq!["{"@, config_line(name), "}"@],
{
    reveal_strlit("{\n  \"preferred_input_device\": \"");
    reveal_strlit("  \"preferred_input_device\": \"");
    reveal_strlit("\"\n}\n");
    reveal_strlit("\"");
    reveal_strlit("{");
    reveal_strlit("}");
    let all = config_text(name);
    let line = config_line(name);
    let one = all.skip(2);
    let two = one.skip(line.len() as int + 1);
    let end = two.skip(2);
    assert(one =~= line + seq!['\n', '}', '\n']);
    assert(two =~= seq!['}', '\n']);
    assert(end =~= Seq::empty());
    lemma_position_is(all, '\n', 1);
    assert forall|i: int| 0 <= i < line.len() implies line[i] != '\n' by {
        if 29 <= i < 29 + name.len() {
            assert(line[i] == name[i - 29]);
            assert(name.contains(name[i - 29]));
        }
    }
    lemma_position_is(one, '\n', line.len() as int);
    lemma_position_is(two, '\n', 1);
    assert(all.take(1) =~= "{"@);
    assert(one.take(line.len() as int) =~= line);
    assert(two.take(1) =~= "}"@);
    assert(lines(end) =~= Seq::empty());
    assert(lines(two) =~= seq!["}"@]);
    assert(lines(one) =~= seq![line, "}"@]);
    assert(lines(all) =~= seq!["{"@, line, "}"@]);
}

proof fn lemma_config_line(name: Seq<char>)
    requires
        name.len() > 0,
        !TrimSet::Quotes.has_char(name[0]),
        !TrimSet::Quotes.has_char(name.last()),
    ensures
        line_preference(config_line(name), preference_key(DataFlow::Capture)) == name,
{
    reveal_strlit("  \"preferred_input_device\": \"");
    reveal_strlit("preferred_input_device");
    reveal_strlit("\"");
    let key = "preferred_input_device"@;
    let line = config_line(name);
    assert(line.subrange(3, 25) =~= key);
    assert(occurs_at(line, key, 3));
    lemma_position_is(line, ':', 26);
    let quoted = seq!['"'] + name + seq!['"'];
    let rest = line.skip(27);
    assert(rest =~= seq![' '] + quoted);
    assert(rest.drop_first() =~= quoted);
    reveal_with_fuel(trim_start, 2);
    reveal_with_fuel(trim_end, 2);
    assert(trim_start(rest, TrimSet::Whitespace) == quoted);
    assert(trim_end(quoted, TrimSet::Whitespace) == quoted);
    let open = name + seq!['"'];
    assert(quoted.drop_first() =~= open);
    assert(open[0] == name[0]);
    assert(trim_start(quoted, TrimSet::Quotes) == open);
    assert(open.drop_last() =~= name);
    assert(trim_end(open, TrimSet::Quotes) == name);
}

/// What the probe writes is what capture goes by: the configuration names exactly
/// the input that it was made for. Left out are names that the form of the file
/// cannot hold: empty ones, those with a line feed, and those with a quote, a
/// comma or a space at an end.
pub proof fn law_probe_configures_capture(name: Seq<char>)
    requires
        name.len() > 0,
        !name.contains('\n'),
        !TrimSet::Quotes.has_char(name[0]),
        !TrimSet::Quotes.has_char(name.last()),
    ensures
        preferences_spec(config_text(name), DataFlow::Capture) == seq![name],
{
    let key = preference_key(DataFlow::Capture);
    let all = seq!["{"@, config_line(name), "}"@];
    lemma_config_lines(name);
    lemma_config_line(name);
    reveal_strlit("preferred_input_device");
    reveal_strlit("{");
    reveal_strlit("}");
    assert(!(has("{"@, key)));
    assert(!(has("}"@, key)));
    assert(all.skip(1) =~= seq![config_line(name), "}"@]);
    assert(all.skip(1).skip(1) =~= seq!["}"@]);
    assert(all.skip(1).skip(1).skip(1) =~= Seq::empty());
    reveal_with_fuel(line_preferences, 4);
    assert(preferences_spec(config_text(name), DataFlow::Capture) =~= seq![name]);
}

/// The name of an input whose device does not tell one.
pub fn unnamed_input(index: u32) -> (r: String)
    ensures
        r@ == "Input Device #"@ + decimal(index as nat),
{
    let mut s = String::from_str("Input Device #");
    push_decimal(&mut s, index as u64);
    s
}

/// The level is above the noise floor.
pub fn is_signal(level: u32) -> (r: bool)
    ensures
        r == (level > NOISE_FLOOR),
{
    level > NOISE_FLOOR
}

/// `i` is the last of the loudest inputs.
pub open spec fn is_loudest(levels: Seq<u32>, i: int) -> bool {
    &&& 0 <= i < levels.len()
    &&& forall|j: int| 0 <= j < levels.len() ==> #[trigger] levels[j] <= levels[i]
    &&& forall|j: int| i < j < levels.len() ==> #[trigger] levels[j] < levels[i]
}

/// The loudest input, the last of them where several are; none without inputs.
pub fn best_input(levels: &Vec<u32>) -> (r: Option<usize>)
    ensures
        match r {
            Some(i) => is_loudest(levels@, i as int),
            None => levels.len() == 0,
        },
{
    if levels.len() == 0 {
        return None;
    }
    let mut best: usize = 0;
    let mut i: usize = 1;
    while i < levels.len()
        invariant
            best < i <= levels.len(),
            forall|j: int| 0 <= j < i ==> #[trigger] levels@[j] <= levels@[best as int],
            forall|j: int| best < j < i ==> #[trigger] levels@[j] < levels@[best as int],
        decreases levels.len() - i,
    {
        if levels[i] >= levels[best] {
            best = i;
        }
        i += 1;
    }
    Some(best)
}

/// The input to be configured: the loudest one, if it is above the noise floor.
pub fn winner(levels: &Vec<u32>) -> (r: Option<usize>)
    ensures
        match r {
            Some(i) => is_loudest(levels@, i as int) && levels@[i as int] > NOISE_FLOOR,
            None => forall|j: int| 0 <= j < levels.len() ==> #[trigger] levels@[j] <= NOISE_FLOOR,
        },
{
    match best_input(levels) {
        Some(i) => if is_signal(levels[i]) {
            Some(i)
        } else {
            None
        },
        None => None,
    }
}

/// There is only one last of the loudest inputs.
pub proof fn law_one_loudest(levels: Seq<u32>, i: int, j: int)
    requires
        is_loudest(levels, i),
        is_loudest(levels, j),
    ensures
        i == j,
{
    assert(levels[i] <= levels[j] && levels[j] <= levels[i]);
}

/// `n` copies of a character.
pub open spec fn repeated(c: char, n: nat) -> Seq<char> {
    Seq::new(n, |i: int| c)
}

fn push_repeated(s: &mut String, c: char, n: usize)
    ensures
        final(s)@ == old(s)@ + repeated(c, n as nat),
{
    let ghost before = s@;
    let mut i: usize = 0;
    while i < n
        invariant
            i <= n,
            s@ == before + repeated(c, i as nat),
        decreases n - i,
    {
        s.push(c);
        i += 1;
        assert(s@ =~= before + repeated(c, i as nat));
    }
}

/// A bar of the given length, at most [`BAR_WIDTH`], filled up to that width.
pub open spec fn bar(len: int) -> Seq<char> {
    let n = if len < BAR_WIDTH {
        len
    } else {
        BAR_WIDTH as int
    };
    repeated('█', n as nat) + repeated('░', (BAR_WIDTH - n) as nat)
}

/// The bar of a level; see [`bar`].
pub fn level_bar(len: usize) -> (r: String)
    ensures
        r@ == bar(len as int),
{
    let n: usize = if len < BAR_WIDTH {
        len
    } else {
        BAR_WIDTH
    };
    let mut s = String::new();
    push_repeated(&mut s, '█', n);
    push_repeated(&mut s, '░', BAR_WIDTH - n);
    s
}

/// `s` with spaces in front of it, up to two characters.
pub open spec fn right_aligned(s: Seq<char>) -> Seq<char> {
    if s.len() < 2 {
        repeated(' ', (2 - s.len()) as nat) + s
    } else {
        s
    }
}

/// `s` with spaces behind it, up to fifty characters.
pub open spec fn left_aligned(s: Seq<char>) -> Seq<char> {
    if s.len() < 50 {
        s + repeated(' ', (50 - s.len()) as nat)
    } else {
        s
    }
}

/// The line of the level table for an input.
pub open spec fn line(
    index: nat,
    name: Seq<char>,
    bar_len: int,
    level: Seq<char>,
    active: bool,
) -> Seq<char> {
    right_aligned(decimal(index)) + ". "@ + left_aligned(name) + " ["@ + bar(bar_len) + "] RMS: "@
        + level + (if active {
        "  ★ ACTIVE GUITAR SIGNAL DETECTED!"@
    } else {
        ""@
    })
}

/// The line of the level table for an input, with its level already in digits.
pub fn level_line(index: usize, name: &str, bar_len: usize, level: &str, active: bool) -> (r: String)
    ensures
        r@ == line(index as nat, name@, bar_len as int, level@, active),
{
    let mut s = String::new();
    if index < 10 {
        s.push(' ');
    }
    push_decimal(&mut s, index as u64);
    proof {
        lemma_one_digit(index as nat);
        assert(s@ =~= right_aligned(decimal(index as nat)));
    }
    s.append(". ");
    s.append(name);
    let n = name.unicode_len();
    if n < 50 {
        push_repeated(&mut s, ' ', 50 - n);
    }
    assert(s@ =~= right_aligned(decimal(index as nat)) + ". "@ + left_aligned(name@));
    s.append(" [");
    let b = level_bar(bar_len);
    s.append(b.as_str());
    s.append("] RMS: ");
    s.append(level);
    if active {
        s.append("  ★ ACTIVE GUITAR SIGNAL DETECTED!");
    } else {
        s.append("");
    }
    s
}

proof fn lemma_one_digit(n: nat)
    ensures
        decimal(n).len() >= 1,
        decimal(n).len() == 1 <==> n < 10,
    decreases n,
{
    if n >= 10 {
        lemma_one_digit(n / 10);
    }
}

/// How the loudest input changes with one more: the new one, if none is louder, and
/// else the one that was loudest before. The first input alone is the loudest.
pub proof fn law_one_more_input(levels: Seq<u32>, level: u32, i: int)
    ensures
        is_loudest(levels.push(level), levels.len() as int) <==> forall|j: int|
            0 <= j < levels.len() ==> #[trigger] levels[j] <= level,
        0 <= i < levels.len() ==> (is_loudest(levels.push(level), i) <==> is_loudest(levels, i)
            && level < levels[i]),
{
    let all = levels.push(level);
    assert forall|j: int| 0 <= j < levels.len() implies all[j] == levels[j] by {}
    assert(all[levels.len() as int] == level);
    if is_loudest(all, levels.len() as int) {
        assert forall|j: int| 0 <= j < levels.len() implies #[trigger] levels[j] <= level by {
            assert(all[j] <= all[levels.len() as int]);
        }
    }
    if 0 <= i < levels.len() && is_loudest(all, i) {
        assert(all[levels.len() as int] < all[i]);
        assert forall|j: int| 0 <= j < levels.len() implies #[trigger] levels[j] <= levels[i] by {
            assert(all[j] <= all[i]);
        }
        assert forall|j: int| i < j < levels.len() implies #[trigger] levels[j] < levels[i] by {
            assert(all[j] < all[i]);
        }
    }
}

/// A bar is always as wide, and as many of its places are filled as it is long, at
/// most all of them.
pub proof fn law_bar(len: int, i: int)
    requires
        0 <= len,
        0 <= i < 25,
    ensures
        bar(len).len() == 25,
        bar(len)[i] == (if i < len {
            '█'
        } else {
            '░'
        }),
{
}

/// Columns line up: numbers fill two places and names fifty, with spaces on their
/// free side, unless they are longer.
pub proof fn law_columns(s: Seq<char>, i: int)
    ensures
        s.len() >= 2 ==> right_aligned(s) == s,
        s.len() == 1 ==> right_aligned(s) == seq![' ', s[0]],
        s.len() >= 50 ==> left_aligned(s) == s,
        s.len() < 50 ==> left_aligned(s).len() == 50,
        s.len() < 50 && 0 <= i < 50 ==> left_aligned(s)[i] == (if i < s.len() {
            s[i]
        } else {
            ' '
        }),
{
    if s.len() == 1 {
        assert(right_aligned(s) =~= seq![' ', s[0]]);
    }
}

/// A line of the table holds the number, the name, the bar and the level of an
/// input, in this order, and is marked exactly where the input is active.
pub proof fn law_line(index: nat, name: Seq<char>, len: int, level: Seq<char>)
    requires
        0 <= len,
    ensures
        ({
            let plain = line(index, name, len, level, false);
            let marked = line(index, name, len, level, true);
            let number = right_aligned(decimal(index));
            let named = left_aligned(name);
            let a = number.len() as int;
            let b = a + 2 + named.len();
            &&& plain.take(a) == number
            &&& plain.subrange(a, a + 2) == seq!['.', ' ']
            &&& plain.subrange(a + 2, b) == named
            &&& plain.subrange(b, b + 2) == seq![' ', '[']
            &&& plain.subrange(b + 2, b + 27) == bar(len)
            &&& plain.skip(b + 27) == "] RMS: "@ + level
            &&& marked == plain + "  ★ ACTIVE GUITAR SIGNAL DETECTED!"@
        }),
{
    reveal_strlit(". ");
    reveal_strlit(" [");
    reveal_strlit("] RMS: ");
    reveal_strlit("");
    let plain = line(index, name, len, level, false);
    let marked = line(index, name, len, level, true);
    let number = right_aligned(decimal(index));
    let named = left_aligned(name);
    let a = number.len() as int;
    let b = a + 2 + named.len();
    assert(plain.take(a) =~= number);
    assert(plain.subrange(a, a + 2) =~= seq!['.', ' ']);
    assert(plain.subrange(a + 2, b) =~= named);
    assert(plain.subrange(b, b + 2) =~= seq![' ', '[']);
    assert(plain.subrange(b + 2, b + 27) =~= bar(len));
    assert(plain.skip(b + 27) =~= "] RMS: "@ + level);
    assert(marked =~= plain + "  ★ ACTIVE GUITAR SIGNAL DETECTED!"@);
}

} // verus!
