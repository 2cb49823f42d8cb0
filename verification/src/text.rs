//! Text building blocks: comparison, decimal numbers and the character classes of names.
use vstd::prelude::*;

verus! {

/// `String::push`: the string grows by exactly this character.
pub assume_specification[ String::push ](text: &mut String, c: char)
    ensures
        final(text)@ == old(text)@.push(c),
;

/// `String::with_capacity`: an empty string. Std refuses more than `isize::MAX` bytes.
pub assume_specification[ String::with_capacity ](capacity: usize) -> (text: String)
    requires
        capacity <= isize::MAX,
    ensures
        text@ == Seq::<char>::empty(),
;

/// An empty text with room for `count` parts of `each` bytes, so that it does not move while it grows to
/// that size; without room, where no machine has that much.
pub fn room_for(count: usize, each: usize) -> (text: String)
    ensures
        text@ == Seq::<char>::empty(),
{
    match count.checked_mul(each) {
        Some(bytes) => if bytes <= isize::MAX as usize {
            String::with_capacity(bytes)
        } else {
            String::new()
        },
        None => String::new(),
    }
}

/// The code of a failed result; `None` for a success.
pub open spec fn code<T>(result: Result<T, &'static str>) -> Option<Seq<char>> {
    match result {
        Ok(_) => None,
        Err(code) => Some(code@),
    }
}

/// The contents of an optional string.
pub open spec fn contents(text: Option<String>) -> Option<Seq<char>> {
    match text {
        Some(text) => Some(text@),
        None => None,
    }
}

/// Letters, digits, `_` and `-`.
pub open spec fn is_name_char(c: char) -> bool {
    ||| 'A' <= c <= 'Z'
    ||| 'a' <= c <= 'z'
    ||| '0' <= c <= '9'
    ||| c == '_'
    ||| c == '-'
}

/// Between one and `limit` letters, digits, `_` or `-`.
pub open spec fn is_name(text: Seq<char>, limit: int) -> bool {
    &&& 1 <= text.len() <= limit
    &&& forall|i: int| 0 <= i < text.len() ==> is_name_char(#[trigger] text[i])
}

/// The decimal digit of a value below ten.
pub open spec fn digit(value: int) -> char {
    ('0' as int + value) as char
}

/// A number in decimal, without leading zeros.
pub open spec fn decimal(value: nat) -> Seq<char>
    decreases value,
{
    if value < 10 {
        seq![digit(value as int)]
    } else {
        decimal(value / 10).push(digit((value % 10) as int))
    }
}

/// A text padded on the left with zeros to at least `width` characters.
pub open spec fn zero_padded(text: Seq<char>, width: nat) -> Seq<char> {
    if text.len() < width {
        Seq::new((width - text.len()) as nat, |i: int| '0') + text
    } else {
        text
    }
}

/// A text padded on the right with spaces to at least `width` characters.
pub open spec fn space_padded(text: Seq<char>, width: nat) -> Seq<char> {
    if text.len() < width {
        text + Seq::new((width - text.len()) as nat, |i: int| ' ')
    } else {
        text
    }
}

/// The order of texts: by the first character that differs, and a text before its continuations.
pub open spec fn comes_before(a: Seq<char>, b: Seq<char>) -> bool
    decreases a.len(),
{
    if b.len() == 0 {
        false
    } else if a.len() == 0 {
        true
    } else if a[0] != b[0] {
        a[0] < b[0]
    } else {
        comes_before(a.skip(1), b.skip(1))
    }
}

/// The characters of a text.
pub fn chars(text: &str) -> (result: Vec<char>)
    ensures
        result@ == text@,
{
    let mut result: Vec<char> = Vec::new();
    for c in iter: text.chars()
        invariant
            result@ == text@.take(iter.index() as int),
            iter.seq() == text@,
    {
        result.push(c);
    }
    result
}

/// Whether two texts are equal.
pub fn same(a: &str, b: &str) -> (result: bool)
    ensures
        result == (a@ == b@),
{
    a.to_owned() == b.to_owned()
}

/// A copy of an optional text.
pub fn copy_option(text: &Option<String>) -> (result: Option<String>)
    ensures
        result == *text,
{
    match text {
        Some(text) => Some(text.clone()),
        None => None,
    }
}

/// Whether two byte strings are equal.
pub fn same_bytes(a: &[u8], b: &[u8]) -> (result: bool)
    ensures
        result == (a@ == b@),
{
    if a.len() != b.len() {
        return false;
    }
    let mut i: usize = 0;
    while i < a.len()
        invariant
            i <= a@.len(),
            a@.len() == b@.len(),
            forall|j: int| 0 <= j < i ==> a@[j] == b@[j],
        decreases a@.len() - i,
    {
        if a[i] != b[i] {
            return false;
        }
        i += 1;
    }
    assert(a@ =~= b@);
    true
}

/// Appends `part` to `bytes`.
pub fn extend(bytes: &mut Vec<u8>, part: &[u8])
    ensures
        final(bytes)@ == old(bytes)@ + part@,
{
    let ghost before = bytes@;
    let mut i: usize = 0;
    while i < part.len()
        invariant
            i <= part@.len(),
            bytes@ == before + part@.take(i as int),
        decreases part@.len() - i,
    {
        bytes.push(part[i]);
        assert(part@.take(i + 1) =~= part@.take(i as int).push(part@[i as int]));
        i += 1;
    }
    assert(part@.take(part@.len() as int) =~= part@);
}

/// Whether `text` starts with `prefix`.
#[verifier::loop_isolation(false)]
pub fn starts_with(text: &str, prefix: &str) -> (result: bool)
    ensures
        result == prefix@.is_prefix_of(text@),
{
    let whole = chars(text);
    let part = chars(prefix);
    if part.len() > whole.len() {
        return false;
    }
    let mut i: usize = 0;
    while i < part.len()
        invariant
            i <= part@.len(),
            forall|j: int| 0 <= j < i ==> part@[j] == whole@[j],
        decreases part@.len() - i,
    {
        if whole[i] != part[i] {
            assert(part@[i as int] != whole@.subrange(0, part@.len() as int)[i as int]);
            return false;
        }
        i += 1;
    }
    assert(part@ =~= whole@.subrange(0, part@.len() as int));
    true
}

/// Whether `text` ends with `suffix`.
#[verifier::loop_isolation(false)]
pub fn ends_with(text: &str, suffix: &str) -> (result: bool)
    ensures
        result == suffix@.is_suffix_of(text@),
{
    let whole = chars(text);
    let part = chars(suffix);
    if part.len() > whole.len() {
        return false;
    }
    let start: usize = whole.len() - part.len();
    let mut i: usize = 0;
    while i < part.len()
        invariant
            i <= part@.len(),
            forall|j: int| 0 <= j < i ==> part@[j] == whole@[start + j],
        decreases part@.len() - i,
    {
        if whole[start + i] != part[i] {
            assert(part@[i as int] != whole@.subrange(start as int, whole@.len() as int)[i as int]);
            return false;
        }
        i += 1;
    }
    assert(part@ =~= whole@.subrange(start as int, whole@.len() as int));
    true
}

/// Whether a text comes before another.
#[verifier::loop_isolation(false)]
pub fn precedes(a: &str, b: &str) -> (result: bool)
    ensures
        result == comes_before(a@, b@),
{
    let x = chars(a);
    let y = chars(b);
    let mut i: usize = 0;
    assert(x@.skip(0) =~= x@ && y@.skip(0) =~= y@);
    while i < x.len() && i < y.len()
        invariant
            i <= x@.len(),
            i <= y@.len(),
            comes_before(x@, y@) == comes_before(x@.skip(i as int), y@.skip(i as int)),
        decreases x@.len() - i,
    {
        if x[i] != y[i] {
            return x[i] < y[i];
        }
        assert(x@.skip(i as int).skip(1) =~= x@.skip(i + 1));
        assert(y@.skip(i as int).skip(1) =~= y@.skip(i + 1));
        i += 1;
    }
    i < y.len()
}

/// Of two texts one comes before the other, or they are equal.
pub proof fn order_is_total(a: Seq<char>, b: Seq<char>)
    ensures
        comes_before(a, b) || comes_before(b, a) || a == b,
        !(comes_before(a, b) && comes_before(b, a)),
        a == b ==> !comes_before(a, b),
    decreases a.len(),
{
    if a.len() > 0 && b.len() > 0 && a[0] == b[0] {
        order_is_total(a.skip(1), b.skip(1));
        if a.skip(1) == b.skip(1) {
            assert(a =~= seq![a[0]] + a.skip(1));
            assert(b =~= seq![b[0]] + b.skip(1));
        }
    } else if a.len() == 0 && b.len() == 0 {
        assert(a =~= b);
    }
}

/// The order of texts is transitive.
pub proof fn order_is_transitive(a: Seq<char>, b: Seq<char>, c: Seq<char>)
    requires
        comes_before(a, b),
        comes_before(b, c),
    ensures
        comes_before(a, c),
    decreases a.len(),
{
    if a.len() > 0 && b.len() > 0 && c.len() > 0 && a[0] == b[0] && b[0] == c[0] {
        order_is_transitive(a.skip(1), b.skip(1), c.skip(1));
    }
}

/// Texts that start alike are ordered as what follows.
pub proof fn order_behind_a_prefix(prefix: Seq<char>, a: Seq<char>, b: Seq<char>)
    requires
        comes_before(a, b),
    ensures
        comes_before(prefix + a, prefix + b),
    decreases prefix.len(),
{
    if prefix.len() == 0 {
        assert(prefix + a =~= a && prefix + b =~= b);
    } else {
        order_behind_a_prefix(prefix.skip(1), a, b);
        assert((prefix + a).skip(1) =~= prefix.skip(1) + a);
        assert((prefix + b).skip(1) =~= prefix.skip(1) + b);
    }
}

/// Texts of one length that are ordered stay so, whatever follows them.
pub proof fn order_before_a_suffix(a: Seq<char>, b: Seq<char>, x: Seq<char>, y: Seq<char>)
    requires
        a.len() == b.len(),
        comes_before(a, b),
    ensures
        comes_before(a + x, b + y),
    decreases a.len(),
{
    if a[0] == b[0] {
        order_before_a_suffix(a.skip(1), b.skip(1), x, y);
        assert((a + x).skip(1) =~= a.skip(1) + x);
        assert((b + y).skip(1) =~= b.skip(1) + y);
    }
}

/// Whether a character is a letter, a digit, `_` or `-`.
pub fn name_char(c: char) -> (result: bool)
    ensures
        result == is_name_char(c),
{
    ('A' <= c && c <= 'Z') || ('a' <= c && c <= 'z') || ('0' <= c && c <= '9') || c == '_' || c == '-'
}

/// Whether `text` holds between one and `limit` letters, digits, `_` or `-`.
#[verifier::loop_isolation(false)]
pub fn name(text: &str, limit: usize) -> (result: bool)
    ensures
        result == is_name(text@, limit as int),
{
    let all = chars(text);
    if all.len() == 0 || all.len() > limit {
        return false;
    }
    let mut i: usize = 0;
    while i < all.len()
        invariant
            i <= all@.len(),
            forall|j: int| 0 <= j < i ==> is_name_char(#[trigger] all@[j]),
        decreases all@.len() - i,
    {
        if !name_char(all[i]) {
            return false;
        }
        i += 1;
    }
    true
}

/// A number in decimal.
pub fn decimal_text(value: u64) -> (result: String)
    ensures
        result@ == decimal(value as nat),
    decreases value,
{
    let mut result = if value < 10 {
        String::new()
    } else {
        decimal_text(value / 10)
    };
    result.push((48 + (value % 10) as u8) as char);
    proof {
        if value < 10 {
            assert(result@ =~= seq![digit(value as int)]);
        }
    }
    result
}

/// A text padded on the left with zeros to at least `width` characters.
pub fn zero_pad(text: &str, width: usize) -> (result: String)
    ensures
        result@ == zero_padded(text@, width as nat),
{
    let count: usize = text.unicode_len();
    let mut result = String::new();
    let mut i: usize = count;
    while i < width
        invariant
            count == text@.len(),
            i <= width || i == count,
            count <= i,
            result@ == Seq::new((i - count) as nat, |i: int| '0'),
        decreases width - i,
    {
        result.push('0');
        assert(result@ =~= Seq::new((i + 1 - count) as nat, |i: int| '0'));
        i += 1;
    }
    result.append(text);
    assert(result@ =~= zero_padded(text@, width as nat));
    result
}

/// A text padded on the right with spaces to at least `width` characters.
pub fn space_pad(text: &str, width: usize) -> (result: String)
    ensures
        result@ == space_padded(text@, width as nat),
{
    let count: usize = text.unicode_len();
    let mut result = text.to_owned();
    let mut i: usize = count;
    while i < width
        invariant
            count == text@.len(),
            i <= width || i == count,
            count <= i,
            result@ == text@ + Seq::new((i - count) as nat, |i: int| ' '),
        decreases width - i,
    {
        result.push(' ');
        assert(result@ =~= text@ + Seq::new((i + 1 - count) as nat, |i: int| ' '));
        i += 1;
    }
    assert(result@ =~= space_padded(text@, width as nat));
    result
}

/// A decimal number is never empty and holds digits only.
pub proof fn decimal_is_digits(value: nat)
    ensures
        decimal(value).len() >= 1,
        forall|i: int| 0 <= i < decimal(value).len() ==> '0' <= #[trigger] decimal(value)[i] <= '9',
    decreases value,
{
    if value >= 10 {
        decimal_is_digits(value / 10);
    }
}

/// Two numbers with the same decimal text are the same number.
pub proof fn decimal_is_injective(a: nat, b: nat)
    requires
        decimal(a) == decimal(b),
    ensures
        a == b,
    decreases a,
{
    decimal_is_digits(a / 10);
    decimal_is_digits(b / 10);
    assert(decimal(a).last() == digit((a % 10) as int));
    assert(decimal(b).last() == digit((b % 10) as int));
    assert(a < 10 ==> decimal(a).len() == 1);
    assert(b < 10 ==> decimal(b).len() == 1);
    assert(digit((a % 10) as int) as int == 48 + a % 10);
    assert(digit((b % 10) as int) as int == 48 + b % 10);
    if a >= 10 && b >= 10 {
        assert(decimal(a).drop_last() =~= decimal(a / 10));
        assert(decimal(b).drop_last() =~= decimal(b / 10));
        decimal_is_injective(a / 10, b / 10);
    }
}

/// Where a mark stands in neither of two first parts, what stands around it is fixed by the whole.
pub proof fn split_at_mark(a: Seq<char>, x: Seq<char>, b: Seq<char>, y: Seq<char>, mark: char)
    requires
        a + seq![mark] + x == b + seq![mark] + y,
        !a.contains(mark),
        !b.contains(mark),
    ensures
        a == b,
        x == y,
{
    let s = a + seq![mark] + x;
    let t = b + seq![mark] + y;
    assert(s[a.len() as int] == mark && t[b.len() as int] == mark);
    assert(s.len() == a.len() + 1 + x.len() && t.len() == b.len() + 1 + y.len());
    if a.len() < b.len() {
        assert(t[a.len() as int] == b[a.len() as int]);
    } else if b.len() < a.len() {
        assert(s[b.len() as int] == a[b.len() as int]);
    }
    assert(s.take(a.len() as int) =~= a && t.take(b.len() as int) =~= b);
    assert(s.skip(a.len() as int + 1) =~= x && t.skip(b.len() as int + 1) =~= y);
}

/// The code points of letters, digits, `_` and `-`.
pub open spec fn is_word_point(point: int) -> bool {
    48 <= point <= 57 || 65 <= point <= 90 || 97 <= point <= 122 || point == 95 || point == 45
}

/// A name is a text of letters, digits, `_` and `-` and of nothing else, that is neither empty nor too long.
pub proof fn names_are_words(text: Seq<char>, limit: int)
    ensures
        is_name(text, limit) <==> 1 <= text.len() <= limit && forall|i: int| 0 <= i < text.len() ==> is_word_point(#[trigger] text[i] as int),
{
    assert forall|c: char| #[trigger] is_name_char(c) <==> is_word_point(c as int) by {
    }
    if is_name(text, limit) {
        assert forall|i: int| 0 <= i < text.len() implies is_word_point(#[trigger] text[i] as int) by {
            assert(is_name_char(text[i]));
        }
    }
    if 1 <= text.len() <= limit && forall|i: int| 0 <= i < text.len() ==> is_word_point(#[trigger] text[i] as int) {
        assert forall|i: int| 0 <= i < text.len() implies is_name_char(#[trigger] text[i]) by {
            assert(is_word_point(text[i] as int));
        }
    }
}

/// The first characters in which two texts differ decide their order.
pub proof fn the_first_difference_decides(a: Seq<char>, b: Seq<char>, k: int)
    requires
        0 <= k < a.len(),
        k < b.len(),
        a.take(k) == b.take(k),
        a[k] != b[k],
    ensures
        comes_before(a, b) <==> (a[k] as int) < b[k] as int,
    decreases k,
{
    if k > 0 {
        assert(a.skip(1).take(k - 1) =~= a.take(k).skip(1));
        assert(b.skip(1).take(k - 1) =~= b.take(k).skip(1));
        assert(a[0] == a.take(k)[0] && b[0] == b.take(k)[0]);
        assert(a.skip(1)[k - 1] == a[k] && b.skip(1)[k - 1] == b[k]);
        the_first_difference_decides(a.skip(1), b.skip(1), k - 1);
    }
}

/// A text comes before every longer text that starts with it, and never after one.
pub proof fn a_text_comes_before_its_continuations(a: Seq<char>, rest: Seq<char>)
    ensures
        comes_before(a, a + rest) <==> rest.len() > 0,
        !comes_before(a + rest, a),
    decreases a.len(),
{
    if a.len() > 0 {
        a_text_comes_before_its_continuations(a.skip(1), rest);
        assert((a + rest).skip(1) =~= a.skip(1) + rest);
    } else {
        assert(a + rest =~= rest);
    }
}

/// Padding keeps the text, reaches the width and adds nothing but zeros or spaces.
pub proof fn padding_keeps_the_text(text: Seq<char>, width: nat)
    ensures
        zero_padded(text, width).len() == if text.len() < width { width } else { text.len() },
        space_padded(text, width).len() == if text.len() < width { width } else { text.len() },
        text.is_suffix_of(zero_padded(text, width)),
        text.is_prefix_of(space_padded(text, width)),
        forall|i: int| 0 <= i < width - text.len() ==> #[trigger] zero_padded(text, width)[i] == '0',
        forall|i: int| text.len() <= i < width ==> #[trigger] space_padded(text, width)[i] == ' ',
{
    let (zeros, spaces) = (zero_padded(text, width), space_padded(text, width));
    assert(text =~= zeros.subrange(zeros.len() - text.len(), zeros.len() as int));
    assert(text =~= spaces.subrange(0, text.len() as int));
}

/// A single character of a name.
pub proof fn name_characters_are_word_points(c: char)
    ensures
        is_name_char(c) <==> is_word_point(c as int),
{
}

/// Whether a text stands in another one.
pub open spec fn mentions(text: Seq<char>, part: Seq<char>) -> bool {
    exists|i: int| 0 <= i <= text.len() - part.len() && #[trigger] text.subrange(i, i + part.len()) == part
}

/// A text stands between any two others.
pub proof fn mentions_between(a: Seq<char>, part: Seq<char>, b: Seq<char>)
    ensures
        mentions(a + part + b, part),
{
    let i = a.len() as int;
    assert((a + part + b).subrange(i, i + part.len()) =~= part);
}

/// What stands in a text stands in every text that holds it, too.
pub proof fn mentions_within(before: Seq<char>, text: Seq<char>, behind: Seq<char>, part: Seq<char>)
    requires
        mentions(text, part),
    ensures
        mentions(before + text, part),
        mentions(text + behind, part),
{
    let i = choose|i: int| 0 <= i <= text.len() - part.len() && #[trigger] text.subrange(i, i + part.len()) == part;
    assert((text + behind).subrange(i, i + part.len()) =~= part);
    let k = before.len() + i;
    assert((before + text).subrange(k, k + part.len()) =~= text.subrange(i, i + part.len()));
}

/// What is told of a result and of an optional text: whether it is there, and all of its characters.
pub proof fn codes_and_contents_are_whole(result: Result<(), &'static str>, text: Option<String>)
    ensures
        code(result) is Some <==> result is Err,
        result matches Err(words) ==> code(result) == Some(words@),
        contents(text) is Some <==> text is Some,
        text matches Some(words) ==> contents(text) == Some(words@),
{
}

} // verus!
