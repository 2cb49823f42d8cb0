//! What owner commands print, and how they write texts for other programs.
use crate::encoding::{upper_digit, upper_hex_digit};
use crate::text::{chars, is_name, is_name_char, is_word_point, name_char, name_characters_are_word_points};
use vstd::prelude::*;
use vstd::utf8::encode_utf8;

verus! {

/// The unreserved characters of RFC 3986, as bytes.
pub open spec fn is_unreserved(byte: u8) -> bool {
    ||| 65 <= byte <= 90
    ||| 97 <= byte <= 122
    ||| 48 <= byte <= 57
    ||| byte == 45
    ||| byte == 46
    ||| byte == 95
    ||| byte == 126
}

/// A byte of a URI component.
pub open spec fn escape(byte: u8) -> Seq<char> {
    if is_unreserved(byte) {
        seq![byte as char]
    } else {
        seq!['%', upper_hex_digit(byte as int / 16), upper_hex_digit(byte as int % 16)]
    }
}

/// The bytes of a URI component.
pub open spec fn escaped(bytes: Seq<u8>) -> Seq<char>
    decreases bytes.len(),
{
    if bytes.len() == 0 {
        seq![]
    } else {
        escaped(bytes.drop_last()) + escape(bytes.last())
    }
}

/// Percent-encodes everything outside the unreserved characters of RFC 3986.
pub fn percent(value: &str) -> (text: String)
    ensures
        text@ == escaped(encode_utf8(value@)),
{
    let bytes = value.as_bytes();
    let mut text = String::new();
    let mut i: usize = 0;
    while i < bytes.len()
        invariant
            i <= bytes@.len(),
            text@ == escaped(bytes@.take(i as int)),
        decreases bytes@.len() - i,
    {
        let byte: u8 = bytes[i];
        let ghost before = text@;
        if (65 <= byte && byte <= 90) || (97 <= byte && byte <= 122) || (48 <= byte && byte <= 57) || byte == 45 || byte == 46
            || byte == 95 || byte == 126 {
            text.push(byte as char);
        } else {
            text.push('%');
            text.push(upper_digit(byte / 16));
            text.push(upper_digit(byte % 16));
        }
        proof {
            assert(bytes@.take(i + 1).drop_last() =~= bytes@.take(i as int));
            assert(text@ =~= before + escape(byte));
        }
        i += 1;
    }
    assert(bytes@.take(bytes@.len() as int) =~= bytes@);
    text
}

/// The characters of Unicode's White_Space property.
pub open spec fn is_white_space(c: char) -> bool {
    let point = c as int;
    ||| 9 <= point <= 13
    ||| point == 32
    ||| point == 0x85
    ||| point == 0xa0
    ||| point == 0x1680
    ||| 0x2000 <= point <= 0x200a
    ||| point == 0x2028
    ||| point == 0x2029
    ||| point == 0x202f
    ||| point == 0x205f
    ||| point == 0x3000
}

/// A text without the white space around it.
pub open spec fn trimmed(text: Seq<char>) -> Seq<char>
    decreases text.len(),
{
    if text.len() == 0 {
        text
    } else if is_white_space(text[0]) {
        trimmed(text.skip(1))
    } else if is_white_space(text.last()) {
        trimmed(text.drop_last())
    } else {
        text
    }
}

fn white_space(c: char) -> (result: bool)
    ensures
        result == is_white_space(c),
{
    let point: u32 = c as u32;
    (9 <= point && point <= 13) || point == 32 || point == 0x85 || point == 0xa0 || point == 0x1680 || (0x2000 <= point && point
        <= 0x200a) || point == 0x2028 || point == 0x2029 || point == 0x202f || point == 0x205f || point == 0x3000
}

/// Whether the owner typed a label to confirm, white space around it aside.
#[verifier::loop_isolation(false)]
pub fn confirms(answer: &str, label: &str) -> (result: bool)
    ensures
        result == (trimmed(answer@) == label@),
{
    let all = chars(answer);
    let mut start: usize = 0;
    assert(all@.subrange(0, all@.len() as int) =~= all@);
    while start < all.len() && white_space(all[start])
        invariant
            start <= all@.len(),
            trimmed(all@) == trimmed(all@.subrange(start as int, all@.len() as int)),
        decreases all@.len() - start,
    {
        assert(all@.subrange(start as int, all@.len() as int).skip(1) =~= all@.subrange(start + 1, all@.len() as int));
        start += 1;
    }
    let mut end: usize = all.len();
    while start < end && white_space(all[end - 1])
        invariant
            start <= end <= all@.len(),
            start < all@.len() ==> !is_white_space(all@[start as int]),
            trimmed(all@) == trimmed(all@.subrange(start as int, end as int)),
        decreases end - start,
    {
        assert(all@.subrange(start as int, end as int).drop_last() =~= all@.subrange(start as int, end - 1));
        end -= 1;
    }
    let word = chars(label);
    let ghost middle = all@.subrange(start as int, end as int);
    assert(trimmed(all@) == middle);
    if word.len() != end - start {
        return false;
    }
    let mut i: usize = 0;
    while i < word.len()
        invariant
            i <= word@.len(),
            forall|j: int| 0 <= j < i ==> word@[j] == middle[j],
        decreases word@.len() - i,
    {
        if word[i] != all[start + i] {
            assert(word@[i as int] != middle[i as int]);
            return false;
        }
        i += 1;
    }
    assert(word@ =~= middle);
    true
}

/// A text in groups of four characters, with a space between groups.
pub open spec fn grouped(text: Seq<char>) -> Seq<char> {
    Seq::new(
        if text.len() == 0 {
            0
        } else {
            (text.len() + (text.len() - 1) / 4) as nat
        },
        |i: int| if i % 5 == 4 { ' ' } else { text[i - i / 5] },
    )
}

/// Appends a text in groups of four characters.
pub fn push_groups(result: &mut String, text: &str)
    ensures
        final(result)@ == old(result)@ + grouped(text@),
{
    let ghost start = result@;
    let mut column: u8 = 0;
    assert(result@ =~= start + grouped(text@.take(0)));
    for c in iter: text.chars()
        invariant
            iter.seq() == text@,
            result@ == start + grouped(text@.take(iter.index() as int)),
            column <= 4,
            iter.index() == 0 ==> column == 0,
            iter.index() > 0 ==> column == (iter.index() - 1) % 4 + 1,
    {
        let ghost i = iter.index() as int;
        let ghost before = result@;
        if column == 4 {
            result.push(' ');
            column = 0;
        }
        result.push(c);
        column = column + 1;
        proof {
            let now = text@.take(i + 1);
            let n = start.len() as int;
            assert(result@.len() == n + grouped(now).len());
            assert forall|k: int| 0 <= k < grouped(now).len() implies result@[n + k] == grouped(now)[k] by {
                if n + k < before.len() {
                    assert(before[n + k] == grouped(text@.take(i))[k]);
                    assert(k % 5 != 4 ==> k - k / 5 < i);
                }
            }
            assert(result@ =~= start + grouped(now));
        }
    }
    assert(text@.take(text@.len() as int) =~= text@);
}

/// Characters that the shell gives no meaning to. A backslash quotes what follows it in a POSIX shell, and
/// is a plain character in PowerShell.
pub open spec fn is_shell_safe(c: char, windows: bool) -> bool {
    is_name_char(c) || c == '/' || c == ':' || c == '.' || (windows && c == '\\')
}

/// The characters that PowerShell takes for a single quote, the typographic ones too.
pub open spec fn is_powershell_quote(c: char) -> bool {
    let point = c as int;
    c == '\'' || 0x2018 <= point <= 0x201b
}

/// A character inside single quotes: PowerShell doubles a quote, a POSIX shell ends the quotes, takes one
/// behind a backslash, and opens them again.
pub open spec fn requoted_char(c: char, windows: bool) -> Seq<char> {
    if windows && is_powershell_quote(c) {
        seq![c, c]
    } else if !windows && c == '\'' {
        seq!['\'', '\\', '\'', '\'']
    } else {
        seq![c]
    }
}

/// A text inside single quotes.
pub open spec fn requoted(text: Seq<char>, windows: bool) -> Seq<char>
    decreases text.len(),
{
    if text.len() == 0 {
        seq![]
    } else {
        requoted(text.drop_last(), windows) + requoted_char(text.last(), windows)
    }
}

/// Whether a text is a word of the shell as it stands.
pub open spec fn is_plain_word(text: Seq<char>, windows: bool) -> bool {
    text.len() > 0 && forall|i: int| 0 <= i < text.len() ==> is_shell_safe(#[trigger] text[i], windows)
}

/// A path as a single shell word: PowerShell single quotes on Windows, POSIX single quotes elsewhere.
pub open spec fn shell_word(text: Seq<char>, windows: bool) -> Seq<char> {
    if is_plain_word(text, windows) {
        text
    } else {
        seq!['\''] + requoted(text, windows) + seq!['\'']
    }
}

fn powershell_quote(c: char) -> (result: bool)
    ensures
        result == is_powershell_quote(c),
{
    let point: u32 = c as u32;
    c == '\'' || (0x2018 <= point && point <= 0x201b)
}

/// A path as a single shell word.
#[verifier::loop_isolation(false)]
pub fn shell_quote(path: &str, windows: bool) -> (word: String)
    ensures
        word@ == shell_word(path@, windows),
{
    let all = chars(path);
    let mut safe: bool = all.len() > 0;
    let mut i: usize = 0;
    while i < all.len()
        invariant
            i <= all@.len(),
            safe == (all@.len() > 0 && forall|j: int| 0 <= j < i ==> is_shell_safe(#[trigger] all@[j], windows)),
        decreases all@.len() - i,
    {
        let c: char = all[i];
        if !name_char(c) && c != '/' && c != ':' && c != '.' && !(windows && c == '\\') {
            safe = false;
        }
        i += 1;
    }
    if safe {
        return path.to_owned();
    }
    let mut word = String::new();
    word.push('\'');
    let mut k: usize = 0;
    assert(word@ =~= seq!['\''] + requoted(all@.take(0), windows));
    while k < all.len()
        invariant
            k <= all@.len(),
            word@ == seq!['\''] + requoted(all@.take(k as int), windows),
        decreases all@.len() - k,
    {
        let ghost before = word@;
        let c: char = all[k];
        if windows && powershell_quote(c) {
            word.push(c);
            word.push(c);
            assert(word@ =~= before + seq![c, c]);
        } else if !windows && c == '\'' {
            word.push('\'');
            word.push('\\');
            word.push('\'');
            word.push('\'');
            assert(word@ =~= before + seq!['\'', '\\', '\'', '\'']);
        } else {
            word.push(c);
            assert(word@ =~= before + seq![c]);
        }
        proof {
            assert(all@.take(k + 1).drop_last() =~= all@.take(k as int));
            assert(word@ =~= before + requoted_char(c, windows));
            assert(word@ =~= seq!['\''] + requoted(all@.take(k + 1), windows));
        }
        k += 1;
    }
    word.push('\'');
    proof {
        assert(all@.take(all@.len() as int) =~= all@);
        assert(word@ =~= seq!['\''] + requoted(all@, windows) + seq!['\'']);
    }
    word
}

/// The value of an upper-case hexadecimal digit.
pub open spec fn hex_value(c: char) -> int {
    if c <= '9' {
        c as int - '0' as int
    } else {
        c as int - 'A' as int + 10
    }
}

/// The bytes of a URI component, read from left to right.
pub open spec fn unescaped(text: Seq<char>) -> Seq<u8>
    decreases text.len(),
{
    if text.len() == 0 {
        seq![]
    } else if text[0] == '%' && text.len() >= 3 {
        seq![(hex_value(text[1]) * 16 + hex_value(text[2])) as u8] + unescaped(text.skip(3))
    } else {
        seq![text[0] as u8] + unescaped(text.skip(1))
    }
}

proof fn escaped_from_the_left(bytes: Seq<u8>)
    requires
        bytes.len() > 0,
    ensures
        escaped(bytes) == escape(bytes[0]) + escaped(bytes.skip(1)),
    decreases bytes.len(),
{
    if bytes.len() == 1 {
        assert(bytes.drop_last() =~= seq![]);
        assert(bytes.skip(1) =~= seq![]);
        assert(escaped(bytes.drop_last()) =~= seq![]);
        assert(escaped(bytes.skip(1)) =~= seq![]);
        assert(escaped(bytes) =~= escape(bytes[0]) + escaped(bytes.skip(1)));
    } else {
        escaped_from_the_left(bytes.drop_last());
        assert(bytes.drop_last().skip(1) =~= bytes.skip(1).drop_last());
        assert(escaped(bytes) =~= escape(bytes[0]) + escaped(bytes.skip(1)));
    }
}

/// Percent-encoding loses nothing: a URI component decodes to the bytes that it was made of.
pub proof fn percent_encoding_is_reversible(bytes: Seq<u8>)
    ensures
        unescaped(escaped(bytes)) == bytes,
    decreases bytes.len(),
{
    if bytes.len() == 0 {
        assert(unescaped(escaped(bytes)) =~= bytes);
    } else {
        let byte = bytes[0];
        let rest = bytes.skip(1);
        escaped_from_the_left(bytes);
        percent_encoding_is_reversible(rest);
        let text = escaped(bytes);
        if is_unreserved(byte) {
            assert(byte as char as int == byte);
            assert(text[0] == byte as char);
            assert(text.skip(1) =~= escaped(rest));
        } else {
            let high = byte as int / 16;
            let low = byte as int % 16;
            assert(upper_hex_digit(high) as int == if high < 10 { 48 + high } else { 55 + high });
            assert(upper_hex_digit(low) as int == if low < 10 { 48 + low } else { 55 + low });
            assert(text[1] == upper_hex_digit(high) && text[2] == upper_hex_digit(low));
            assert(text.skip(3) =~= escaped(rest));
        }
        assert(bytes =~= seq![byte] + rest);
    }
}

/// What a POSIX shell reads a word as: single quotes quote everything up to the next one, and a backslash
/// outside them quotes one character. `None` where a quote is left open, and where a character that the
/// shell may give a meaning to stands outside the quotes: then it is not known to be one word.
pub open spec fn posix_word(word: Seq<char>, quoted: bool) -> Option<Seq<char>>
    decreases word.len(),
{
    if word.len() == 0 {
        if quoted {
            None
        } else {
            Some(seq![])
        }
    } else if word[0] == '\'' {
        posix_word(word.skip(1), !quoted)
    } else if word[0] == '\\' && !quoted {
        if word.len() == 1 || word[1] == '\n' {
            None
        } else {
            match posix_word(word.skip(2), quoted) {
                Some(rest) => Some(seq![word[1]] + rest),
                None => None,
            }
        }
    } else if quoted || is_shell_safe(word[0], false) {
        match posix_word(word.skip(1), quoted) {
            Some(rest) => Some(seq![word[0]] + rest),
            None => None,
        }
    } else {
        None
    }
}

/// What PowerShell reads the inside of single quotes as: two of them in a row are the second one. `None`
/// where the quotes do not end with the word.
pub open spec fn powershell_quoted(word: Seq<char>) -> Option<Seq<char>>
    decreases word.len(),
{
    if word.len() == 0 {
        None
    } else if is_powershell_quote(word[0]) {
        if word.len() == 1 {
            Some(seq![])
        } else if is_powershell_quote(word[1]) {
            match powershell_quoted(word.skip(2)) {
                Some(rest) => Some(seq![word[1]] + rest),
                None => None,
            }
        } else {
            None
        }
    } else {
        match powershell_quoted(word.skip(1)) {
            Some(rest) => Some(seq![word[0]] + rest),
            None => None,
        }
    }
}

/// What PowerShell reads a word as: one in single quotes, or one of plain characters. `None` where it is
/// not known to be one word.
pub open spec fn powershell_word(word: Seq<char>) -> Option<Seq<char>> {
    if word.len() > 0 && is_powershell_quote(word[0]) {
        powershell_quoted(word.skip(1))
    } else if is_plain_word(word, true) {
        Some(word)
    } else {
        None
    }
}

proof fn requoted_from_the_left(text: Seq<char>, windows: bool)
    requires
        text.len() > 0,
    ensures
        requoted(text, windows) == requoted_char(text[0], windows) + requoted(text.skip(1), windows),
    decreases text.len(),
{
    let first = requoted_char(text[0], windows);
    if text.len() == 1 {
        assert(text.drop_last() =~= seq![]);
        assert(text.skip(1) =~= seq![]);
        assert(requoted(text, windows) =~= first + requoted(text.skip(1), windows));
    } else {
        requoted_from_the_left(text.drop_last(), windows);
        assert(text.drop_last().skip(1) =~= text.skip(1).drop_last());
        assert(requoted(text, windows) =~= first + requoted(text.skip(1), windows));
    }
}

proof fn posix_quotes_hold(text: Seq<char>)
    ensures
        posix_word(requoted(text, false) + seq!['\''], true) == Some(text),
    decreases text.len(),
{
    let word = requoted(text, false) + seq!['\''];
    if text.len() == 0 {
        assert(word.skip(1) =~= seq![]);
        assert(text =~= seq![]);
    } else {
        let rest = text.skip(1);
        let tail = requoted(rest, false) + seq!['\''];
        requoted_from_the_left(text, false);
        posix_quotes_hold(rest);
        assert(text =~= seq![text[0]] + rest);
        assert(word =~= requoted_char(text[0], false) + tail);
        if text[0] == '\'' {
            assert(word[0] == '\'' && word[1] == '\\' && word[2] == '\'' && word[3] == '\'');
            assert(word.skip(1)[0] == '\\' && word.skip(1)[1] == '\'');
            assert(word.skip(1).skip(2) =~= word.skip(3));
            assert(word.skip(3)[0] == '\'');
            assert(word.skip(3).skip(1) =~= tail);
            assert(posix_word(word.skip(3), false) == posix_word(tail, true));
            assert(posix_word(word.skip(1), false) == Some(seq!['\''] + rest));
        } else {
            assert(word.skip(1) =~= tail);
        }
    }
}

proof fn powershell_quotes_hold(text: Seq<char>)
    ensures
        powershell_quoted(requoted(text, true) + seq!['\'']) == Some(text),
    decreases text.len(),
{
    let word = requoted(text, true) + seq!['\''];
    if text.len() == 0 {
        assert(text =~= seq![]);
    } else {
        let rest = text.skip(1);
        let tail = requoted(rest, true) + seq!['\''];
        requoted_from_the_left(text, true);
        powershell_quotes_hold(rest);
        assert(text =~= seq![text[0]] + rest);
        assert(word =~= requoted_char(text[0], true) + tail);
        if is_powershell_quote(text[0]) {
            assert(word.skip(2) =~= tail);
        } else {
            assert(word.skip(1) =~= tail);
        }
    }
}

proof fn posix_plain_words(text: Seq<char>)
    requires
        forall|i: int| 0 <= i < text.len() ==> is_shell_safe(#[trigger] text[i], false),
    ensures
        posix_word(text, false) == Some(text),
    decreases text.len(),
{
    if text.len() == 0 {
        assert(text =~= seq![]);
    } else {
        assert(is_shell_safe(text[0], false));
        posix_plain_words(text.skip(1));
        assert(text =~= seq![text[0]] + text.skip(1));
    }
}

/// A POSIX shell reads the word of a path as one word, and that word is the path.
pub proof fn posix_shells_read_the_path(path: Seq<char>)
    ensures
        posix_word(shell_word(path, false), false) == Some(path),
{
    if is_plain_word(path, false) {
        posix_plain_words(path);
    } else {
        posix_quotes_hold(path);
        let word = shell_word(path, false);
        assert(word[0] == '\'');
        assert(word.skip(1) =~= requoted(path, false) + seq!['\'']);
    }
}

/// PowerShell reads the word of a path as one word, and that word is the path.
pub proof fn powershell_reads_the_path(path: Seq<char>)
    ensures
        powershell_word(shell_word(path, true)) == Some(path),
{
    let word = shell_word(path, true);
    if is_plain_word(path, true) {
        assert(is_shell_safe(path[0], true));
    } else {
        powershell_quotes_hold(path);
        assert(word.skip(1) =~= requoted(path, true) + seq!['\'']);
    }
}

/// What stands unescaped in a URI component is a letter, a digit or one of four marks, and every other byte
/// is a percent sign and its two upper-case hexadecimal digits.
pub proof fn only_unreserved_bytes_stand_for_themselves(byte: u8)
    ensures
        escape(byte).len() == 1 || escape(byte).len() == 3,
        escape(byte).len() == 1 <==> 48 <= byte <= 57 || 65 <= byte <= 90 || 97 <= byte <= 122 || byte == 45 || byte == 46 || byte == 95 || byte
            == 126,
        escape(byte).len() == 1 ==> escape(byte)[0] as int == byte,
        escape(byte).len() == 3 ==> {
            let (high, low) = (escape(byte)[1] as int, escape(byte)[2] as int);
            &&& escape(byte)[0] as int == 37
            &&& 48 <= high <= 57 || 65 <= high <= 70
            &&& 48 <= low <= 57 || 65 <= low <= 70
            &&& 16 * (if high <= 57 { high - 48 } else { high - 55 }) + (if low <= 57 { low - 48 } else { low - 55 }) == byte
        },
{
}

/// A component is escaped byte by byte, from left to right.
pub proof fn components_are_escaped_in_order(a: Seq<u8>, b: Seq<u8>)
    ensures
        escaped(a + b) == escaped(a) + escaped(b),
    decreases b.len(),
{
    if b.len() == 0 {
        assert(a + b =~= a);
        assert(escaped(a) + escaped(b) =~= escaped(a));
    } else {
        assert((a + b).drop_last() =~= a + b.drop_last());
        components_are_escaped_in_order(a, b.drop_last());
        assert(escaped(a) + (escaped(b.drop_last()) + escape(b.last())) =~= escaped(a) + escaped(b.drop_last()) + escape(b.last()));
    }
}

/// Trimming takes white space from both ends and nothing else: what is left stands in the text, starts and
/// ends without white space, and is surrounded by nothing but white space.
pub proof fn trimming_takes_white_space_only(text: Seq<char>) -> (range: (int, int))
    ensures
        0 <= range.0 <= range.1 <= text.len(),
        trimmed(text) == text.subrange(range.0, range.1),
        forall|i: int| 0 <= i < range.0 || range.1 <= i < text.len() ==> is_white_space(#[trigger] text[i]),
        range.0 < range.1 ==> !is_white_space(text[range.0]) && !is_white_space(text[range.1 - 1]),
    decreases text.len(),
{
    if text.len() == 0 {
        assert(text.subrange(0, 0) =~= text);
        (0, 0)
    } else if is_white_space(text[0]) {
        let (start, end) = trimming_takes_white_space_only(text.skip(1));
        assert(text.skip(1).subrange(start, end) =~= text.subrange(start + 1, end + 1));
        assert forall|i: int| 0 <= i < start + 1 || end + 1 <= i < text.len() implies is_white_space(#[trigger] text[i]) by {
            if i > 0 {
                assert(text.skip(1)[i - 1] == text[i]);
            }
        }
        (start + 1, end + 1)
    } else if is_white_space(text.last()) {
        let (start, end) = trimming_takes_white_space_only(text.drop_last());
        assert(text.drop_last().subrange(start, end) =~= text.subrange(start, end));
        assert forall|i: int| 0 <= i < start || end <= i < text.len() implies is_white_space(#[trigger] text[i]) by {
            if i < text.len() - 1 {
                assert(text.drop_last()[i] == text[i]);
            }
        }
        (start, end)
    } else {
        assert(text.subrange(0, text.len() as int) =~= text);
        (0, text.len() as int)
    }
}

/// Which characters are white space: those of Unicode's property, and no character of a name.
pub proof fn white_space_is_that_of_unicode(c: char)
    ensures
        ({
            let point = c as int;
            &&& is_white_space(c) <==> {
                ||| point == 9 || point == 10 || point == 11 || point == 12 || point == 13 || point == 32
                ||| point == 0x85 || point == 0xa0 || point == 0x1680
                ||| 0x2000 <= point < 0x200b
                ||| point == 0x2028 || point == 0x2029 || point == 0x202f || point == 0x205f || point == 0x3000
            }
            &&& is_word_point(point) ==> !is_white_space(c)
        }),
{
}

/// Typing a label and a line ending confirms that label, and no other.
pub proof fn typed_labels_confirm_themselves(label: Seq<char>, ending: Seq<char>)
    requires
        is_name(label, 64),
        forall|i: int| 0 <= i < ending.len() ==> #[trigger] ending[i] == '\n' || ending[i] == '\r' || ending[i] == ' ',
    ensures
        trimmed(label + ending) == label,
    decreases ending.len(),
{
    let text = label + ending;
    assert(is_name_char(label[0]) && is_name_char(label[label.len() - 1]));
    assert(text[0] == label[0]);
    if ending.len() == 0 {
        assert(text =~= label);
        assert(text.last() == label[label.len() - 1]);
    } else {
        assert(text.last() == ending.last());
        assert(text.drop_last() =~= label + ending.drop_last());
        typed_labels_confirm_themselves(label, ending.drop_last());
    }
}

/// A key in groups is the key with a space behind every four of its characters but the last: each of them
/// stands at its own place, and nothing is added but spaces.
pub proof fn groups_hold_the_whole_key(text: Seq<char>)
    ensures
        text.len() == 0 ==> grouped(text).len() == 0,
        text.len() > 0 ==> grouped(text).len() == text.len() + (text.len() - 1) / 4,
        forall|i: int| 0 <= i < text.len() ==> grouped(text)[i + i / 4] == #[trigger] text[i],
        forall|i: int| 0 <= i < grouped(text).len() && i % 5 == 4 ==> #[trigger] grouped(text)[i] == ' ',
{
    assert forall|i: int| 0 <= i < text.len() implies grouped(text)[i + i / 4] == #[trigger] text[i] by {
        let k = i + i / 4;
        assert(k % 5 == i % 4);
        assert(k / 5 == i / 4);
        assert(k < grouped(text).len());
    }
}

/// A path stands unquoted exactly where it is made of letters, digits, `_`, `-`, `/`, `:` and `.`, and of
/// backslashes on Windows; every other one is put between single quotes.
pub proof fn only_plain_paths_go_unquoted(text: Seq<char>, windows: bool)
    ensures
        is_plain_word(text, windows) <==> text.len() > 0 && forall|i: int|
            0 <= i < text.len() ==> {
                let point = #[trigger] text[i] as int;
                is_word_point(point) || 46 <= point <= 47 || point == 58 || (windows && point == 92)
            },
        is_plain_word(text, windows) ==> shell_word(text, windows) == text,
        !is_plain_word(text, windows) ==> {
            let word = shell_word(text, windows);
            word.len() >= 2 && word[0] == '\'' && word.last() == '\'' && word.subrange(1, word.len() - 1) == requoted(text, windows)
        },
{
    if is_plain_word(text, windows) {
        assert forall|i: int| 0 <= i < text.len() implies {
            let point = #[trigger] text[i] as int;
            is_word_point(point) || 46 <= point <= 47 || point == 58 || (windows && point == 92)
        } by {
            assert(is_shell_safe(text[i], windows));
            name_characters_are_word_points(text[i]);
        }
    } else {
        let word = shell_word(text, windows);
        assert(word.subrange(1, word.len() - 1) =~= requoted(text, windows));
        if text.len() > 0 {
            let i = choose|i: int| 0 <= i < text.len() && !is_shell_safe(#[trigger] text[i], windows);
            name_characters_are_word_points(text[i]);
            let point = text[i] as int;
            assert(!(is_word_point(point) || 46 <= point <= 47 || point == 58 || (windows && point == 92)));
        }
    }
}

/// Inside quotes a character stands as it is, but for quotes: PowerShell takes five of them for one and gets
/// each twice, a POSIX shell has one and gets it outside the quotes, behind a backslash.
pub proof fn only_quotes_are_requoted(c: char)
    ensures
        c as int == 39 || 0x2018 <= c as int <= 0x201b ==> requoted_char(c, true) == seq![c, c],
        !(c as int == 39 || 0x2018 <= c as int <= 0x201b) ==> requoted_char(c, true) == seq![c],
        c as int == 39 ==> requoted_char(c, false) == seq!['\'', '\\', '\'', '\''],
        c as int != 39 ==> requoted_char(c, false) == seq![c],
{
}

/// A text is requoted character by character, from left to right.
pub proof fn texts_are_requoted_in_order(a: Seq<char>, b: Seq<char>, windows: bool)
    ensures
        requoted(a + b, windows) == requoted(a, windows) + requoted(b, windows),
    decreases b.len(),
{
    if b.len() == 0 {
        assert(a + b =~= a);
        assert(requoted(a, windows) + requoted(b, windows) =~= requoted(a, windows));
    } else {
        assert((a + b).drop_last() =~= a + b.drop_last());
        texts_are_requoted_in_order(a, b.drop_last(), windows);
        assert(requoted(a, windows) + (requoted(b.drop_last(), windows) + requoted_char(b.last(), windows)) =~= requoted(a, windows)
            + requoted(b.drop_last(), windows) + requoted_char(b.last(), windows));
    }
}

} // verus!
