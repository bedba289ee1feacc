//! JSON documents as plain trees, and typed access to their members.

use vstd::arithmetic::power::pow;
use vstd::prelude::*;

use crate::text;
use crate::text::{parse_unsigned, str_eq, string_of, trim_chars};

verus! {

/// A JSON value. A number is held as its text.
#[derive(Debug, PartialEq)]
pub enum Json {
    Null,
    Bool(bool),
    Number(String),
    Text(String),
    Array(Vec<Json>),
    Object(Vec<Member>),
}

/// A member of a JSON object.
#[derive(Debug, PartialEq)]
pub struct Member {
    pub key: String,
    pub value: Json,
}

/// The mathematical value of a [`Json`].
pub enum JsonView {
    Null,
    Bool(bool),
    Number(Seq<char>),
    Text(Seq<char>),
    Array(Seq<JsonView>),
    Object(Seq<MemberView>),
}

/// The mathematical value of a [`Member`].
pub struct MemberView {
    pub key: Seq<char>,
    pub value: JsonView,
}

/// The mathematical value of a JSON value.
pub open spec fn json_view(j: Json) -> JsonView
    decreases j,
{
    match j {
        Json::Null => JsonView::Null,
        Json::Bool(b) => JsonView::Bool(b),
        Json::Number(s) => JsonView::Number(s@),
        Json::Text(s) => JsonView::Text(s@),
        Json::Array(v) => JsonView::Array(
            Seq::new(
                v@.len(),
                |i: int| if 0 <= i < v@.len() { json_view(v@[i]) } else { JsonView::Null },
            ),
        ),
        Json::Object(v) => JsonView::Object(
            Seq::new(
                v@.len(),
                |i: int|
                    MemberView {
                        key: v@[i].key@,
                        value: if 0 <= i < v@.len() {
                            json_view(v@[i].value)
                        } else {
                            JsonView::Null
                        },
                    },
            ),
        ),
    }
}

impl View for Json {
    type V = JsonView;

    open spec fn view(&self) -> JsonView {
        json_view(*self)
    }
}

/// The view of an object, member by member.
pub proof fn lemma_object_view(m: Vec<Member>)
    ensures
        Json::Object(m)@ is Object,
        Json::Object(m)@->Object_0.len() == m@.len(),
        forall|i: int|
            0 <= i < m@.len() ==> #[trigger] Json::Object(m)@->Object_0[i] == (MemberView {
                key: m@[i].key@,
                value: m@[i].value@,
            }),
{
}

/// The view of an array, element by element.
pub proof fn lemma_array_view(a: Vec<Json>)
    ensures
        Json::Array(a)@ is Array,
        Json::Array(a)@->Array_0.len() == a@.len(),
        forall|i: int| 0 <= i < a@.len() ==> #[trigger] Json::Array(a)@->Array_0[i] == a@[i]@,
{
}

/// The view of an optional reference to a value.
pub open spec fn opt_json(j: Option<&Json>) -> Option<JsonView> {
    match j {
        Some(v) => Some(v@),
        None => None,
    }
}

/// The view of the outcome of a parse.
pub open spec fn parse_view(r: Result<Json, String>) -> Result<JsonView, Seq<char>> {
    match r {
        Ok(j) => Ok(j@),
        Err(e) => Err(e@),
    }
}

/// The tree that `serde_json` parses a text into.
#[verifier::external_type_specification]
#[verifier::external_body]
pub struct ExValue(serde_json::Value);

/// What a `serde_json::Value` holds, its numbers as the texts that they
/// display.
pub uninterp spec fn value_tree(value: serde_json::Value) -> JsonView;

/// What `serde_json` makes of a text: the value that it denotes, or the
/// message of the error.
pub uninterp spec fn json_document(text: Seq<char>) -> Result<JsonView, Seq<char>>;

/// Copies a `serde_json::Value`, node by node; a number becomes the text that
/// `Number` displays. The copy holds what the value holds.
#[verifier::external_body]
fn from_value(value: serde_json::Value) -> (j: Json)
    requires
        within(value_tree(value), 127),
    ensures
        j@ == value_tree(value),
{
    match value {
        serde_json::Value::Null => Json::Null,
        serde_json::Value::Bool(b) => Json::Bool(b),
        serde_json::Value::Number(n) => Json::Number(n.to_string()),
        serde_json::Value::String(s) => Json::Text(s),
        serde_json::Value::Array(a) => Json::Array(a.into_iter().map(from_value).collect()),
        serde_json::Value::Object(m) => {
            Json::Object(m.into_iter().map(|(key, v)| Member { key, value: from_value(v) }).collect())
        },
    }
}

/// Parses a text with `serde_json::from_str`. What comes out, value or error
/// message, depends on the text alone. A text whose arrays and objects nest
/// more than 127 levels is refused.
#[verifier::external_body]
pub(crate) fn parse_value(text: &str) -> (r: Result<serde_json::Value, String>)
    ensures
        match r {
            Ok(value) => {
                &&& json_document(text@) == Ok::<JsonView, Seq<char>>(value_tree(value))
                &&& within(value_tree(value), 127)
            },
            Err(e) => json_document(text@) == Err::<JsonView, Seq<char>>(e@),
        },
{
    match serde_json::from_str::<serde_json::Value>(text) {
        Ok(value) => Ok(value),
        Err(e) => Err(e.to_string()),
    }
}

/// Parses a JSON text.
pub fn parse_json(text: &str) -> (r: Result<Json, String>)
    ensures
        parse_view(r) == json_document(text@),
{
    match parse_value(text) {
        Ok(value) => Ok(from_value(value)),
        Err(e) => Err(e),
    }
}

// Writing

/// Whether at most so many arrays and objects stand inside one another.
pub open spec fn within(j: JsonView, levels: nat) -> bool
    decreases levels,
{
    match j {
        JsonView::Array(a) => levels > 0 && forall|i: int|
            0 <= i < a.len() ==> within(#[trigger] a[i], (levels - 1) as nat),
        JsonView::Object(m) => levels > 0 && forall|i: int|
            0 <= i < m.len() ==> within((#[trigger] m[i]).value, (levels - 1) as nat),
        _ => true,
    }
}

/// `s` without the minus sign that it begins with.
pub open spec fn without_minus(s: Seq<char>) -> Seq<char> {
    if s.len() > 0 && s[0] == '-' { s.skip(1) } else { s }
}

/// Whether a text is a number that JSON can hold, of at most 300 characters and
/// without an exponent.
pub open spec fn is_number_text(s: Seq<char>) -> bool {
    let b = without_minus(s);
    let k = text::digits_end(b, 0);
    &&& s.len() <= 300
    &&& 0 < k
    &&& b[0] != '0' || k == 1
    &&& k == b.len() || (b[k] == '.' && k + 1 < b.len() && text::digits_end(b, k + 1) == b.len())
}

/// Whether a text is a decimal fraction of at most fifteen digits, as short as
/// it can be, and not so close to zero that it would be shown with an exponent.
pub open spec fn is_short_fraction(b: Seq<char>) -> bool {
    let k = text::digits_end(b, 0);
    let whole = b.len() == k + 2 && b[k + 1] == '0';
    &&& b.len() <= 16
    &&& 0 < k < b.len() - 1
    &&& b[k] == '.'
    &&& text::digits_end(b, k + 1) == b.len()
    &&& b[0] != '0' || k == 1
    &&& whole || b.last() != '0'
    &&& b[0] != '0' || whole || exists|i: int| 2 <= i < 7 && i < b.len() && #[trigger] b[i] != '0'
}

/// Whether a number reads back as it was written: a whole number of 64 bits, or
/// a short fraction.
pub open spec fn is_plain_number(s: Seq<char>) -> bool {
    ||| exists|n: nat| n <= u64::MAX && s == #[trigger] text::decimal(n)
    ||| exists|n: nat|
        0 < n <= 0x8000_0000_0000_0000 && s == seq!['-'] + #[trigger] text::decimal(n)
    ||| is_short_fraction(without_minus(s))
}

/// Where the digits of a number end, those behind its point included.
pub open spec fn mantissa_end(b: Seq<char>) -> int {
    let k = text::digits_end(b, 0);
    if k < b.len() && b[k] == '.' { text::digits_end(b, k + 1) } else { k }
}

/// The digits of a number, without its point.
pub open spec fn number_digits(b: Seq<char>) -> Seq<char> {
    let k = text::digits_end(b, 0);
    if k < b.len() && b[k] == '.' {
        b.take(k) + b.subrange(k + 1, mantissa_end(b))
    } else {
        b.take(k)
    }
}

/// The number that the exponent of a number text shows, none being 0.
pub open spec fn shown_exponent(e: Seq<char>) -> int {
    if e.len() < 2 || (e[0] != 'e' && e[0] != 'E') {
        0
    } else if e[1] == '-' {
        -(text::digits_value(e.skip(2), 10) as int)
    } else {
        text::digits_value(text::without_plus(e.skip(1)), 10) as int
    }
}

/// The power of ten by which the digits of a number count.
pub open spec fn number_exponent(b: Seq<char>) -> int {
    let k = text::digits_end(b, 0);
    let decimals = if k < b.len() && b[k] == '.' { mantissa_end(b) - k - 1 } else { 0 };
    shown_exponent(b.skip(mantissa_end(b))) - decimals
}

/// A sign, digits and a power of ten, with as few digits as can be.
pub open spec fn shortened(minus: bool, digits: nat, exponent: int) -> (bool, nat, int)
    decreases digits,
{
    if digits == 0 {
        (false, 0, 0)
    } else if digits % 10 == 0 {
        shortened(minus, digits / 10, exponent + 1)
    } else {
        (minus, digits, exponent)
    }
}

/// The value that a number text denotes: its sign, its digits and the power of
/// ten by which they count. Texts of one value have it in common.
pub open spec fn number_value(s: Seq<char>) -> (bool, nat, int) {
    let b = without_minus(s);
    shortened(
        s.len() > 0 && s[0] == '-',
        text::digits_value(number_digits(b), 10),
        number_exponent(b),
    )
}

/// Whether a number keeps its value when it is written and read: it has at most
/// fifteen digits that count, by a power of ten that is exact in binary.
pub open spec fn is_exact_number(s: Seq<char>) -> bool {
    let b = without_minus(s);
    &&& text::digits_value(number_digits(b), 10) < 1_000_000_000_000_000
    &&& -22 <= number_exponent(b) <= 22
}

/// Whether the decimals of a number reach no further than 400 places.
pub open spec fn is_scalable(s: Seq<char>) -> bool {
    number_exponent(without_minus(s)) >= -400
}

/// What a number text denotes, counted in the last of 400 decimal places.
pub open spec fn scaled(s: Seq<char>) -> int {
    let b = without_minus(s);
    let n = text::digits_value(number_digits(b), 10) * pow(
        10,
        (400 + number_exponent(b)) as nat,
    );
    if s.len() > 0 && s[0] == '-' { -n } else { n }
}

/// A number without its sign.
pub open spec fn magnitude(n: int) -> int {
    if n < 0 { -n } else { n }
}

/// Whether a number is zero, or so far from it that nothing of its precision is
/// lost in binary.
pub open spec fn is_ordinary(s: Seq<char>) -> bool {
    is_scalable(s) && (scaled(s) == 0 || magnitude(scaled(s)) >= pow(10, 100))
}

/// Whether a number differs from another by at most `n` of 2^50 parts of that.
pub open spec fn is_near(s: Seq<char>, t: Seq<char>, n: nat) -> bool {
    &&& is_scalable(t)
    &&& magnitude(scaled(s) - scaled(t)) * 0x4_0000_0000_0000 <= n * magnitude(scaled(s))
}

/// Whether a number text stands for another: as it is where that is plain, with
/// the same value where that is exact, and in any case near it, unless that is
/// all but zero.
pub open spec fn number_kept(s: Seq<char>, t: Seq<char>, n: nat) -> bool {
    &&& is_plain_number(s) ==> t == s
    &&& is_exact_number(s) ==> is_exact_number(t) && number_value(t) == number_value(s)
    &&& is_ordinary(s) ==> is_near(s, t, n)
}

/// Whether a number text denotes exactly the single-precision number of `m`
/// units of 2^(q - 149), or its negative.
pub open spec fn is_single(s: Seq<char>, m: nat, q: nat) -> bool {
    &&& m < 0x100_0000
    &&& is_scalable(s)
    &&& magnitude(scaled(s)) * pow(2, 149) == m * (pow(2, q) * pow(10, 400))
}

/// Whether a number lies less than a quarter of 2^(q - 149) from another, so
/// that both are nearest to one single-precision number of such units.
pub open spec fn reads_as_single(s: Seq<char>, t: Seq<char>, q: nat) -> bool {
    &&& is_scalable(t)
    &&& 4 * (magnitude(scaled(s) - scaled(t)) * pow(2, 149)) < pow(2, q) * pow(10, 400)
}

/// Whether every single-precision number that a text denotes is read from
/// another text too.
pub open spec fn single_kept(s: Seq<char>, t: Seq<char>) -> bool {
    forall|m: nat, q: nat| #[trigger] is_single(s, m, q) ==> reads_as_single(s, t, q)
}

/// Whether `b` is `a`, but that a number may be written otherwise where it is
/// not plain, and rounded by `n` of 2^50 parts where it is not exact either.
pub open spec fn alike(a: JsonView, b: JsonView, n: nat) -> bool
    decreases a,
{
    match a {
        JsonView::Null => b is Null,
        JsonView::Bool(_) => b == a,
        JsonView::Text(_) => b == a,
        JsonView::Number(s) => match b {
            JsonView::Number(t) => number_kept(s, t, n),
            _ => false,
        },
        JsonView::Array(x) => match b {
            JsonView::Array(y) => x.len() == y.len() && forall|i: int|
                0 <= i < x.len() ==> alike(#[trigger] x[i], y[i], n),
            _ => false,
        },
        JsonView::Object(x) => match b {
            JsonView::Object(y) => x.len() == y.len() && forall|i: int|
                0 <= i < x.len() ==> (#[trigger] x[i]).key == y[i].key && alike(
                    x[i].value,
                    y[i].value,
                    n,
                ),
            _ => false,
        },
    }
}

/// Whether two texts are equal up to a position, where the first ends or has
/// the smaller character.
pub open spec fn before_at(a: Seq<char>, b: Seq<char>, k: int) -> bool {
    &&& 0 <= k <= a.len()
    &&& k < b.len()
    &&& forall|i: int| 0 <= i < k ==> #[trigger] a[i] == b[i]
    &&& k == a.len() || a[k] < b[k]
}

/// Whether a text comes before another in the order of their characters.
pub open spec fn comes_before(a: Seq<char>, b: Seq<char>) -> bool {
    exists|k: int| before_at(a, b, k)
}

/// Whether the members stand in the order of their keys.
pub open spec fn ascending(m: Seq<MemberView>) -> bool {
    forall|i: int| 0 <= i < m.len() - 1 ==> comes_before((#[trigger] m[i]).key, m[i + 1].key)
}

/// Whether every number is one that JSON can hold, and the members of every
/// object stand in the order of their keys.
pub open spec fn writable(j: JsonView) -> bool
    decreases j,
{
    match j {
        JsonView::Number(s) => is_number_text(s),
        JsonView::Array(a) => forall|i: int| 0 <= i < a.len() ==> writable(#[trigger] a[i]),
        JsonView::Object(m) => {
            &&& ascending(m)
            &&& forall|i: int| 0 <= i < m.len() ==> writable((#[trigger] m[i]).value)
        },
        _ => true,
    }
}

/// What a tree becomes as a `serde_json::Value`, its numbers as they are then
/// displayed.
pub uninterp spec fn json_value(tree: JsonView) -> JsonView;

/// The text that `serde_json` writes for a tree.
pub uninterp spec fn json_text(tree: JsonView) -> Seq<char>;

/// Copies a tree into a `serde_json::Value`, node by node, reading a number
/// with `Number::from_str`. What the value holds depends on the tree alone. A
/// tree of JSON numbers and of objects with ordered keys is kept, but that a
/// number that is not plain may be displayed otherwise. It then has the same
/// value where it is exact, and any other is rounded by less than one of 2^50
/// parts: its digits, the power of ten by which they count, their product and
/// the display are each rounded by at most one of 2^53, and a power beyond
/// 10^308 is taken in two steps. Of a number within 10^-300 of zero nothing is
/// claimed.
#[verifier::external_body]
pub(crate) fn to_value(j: &Json) -> (value: serde_json::Value)
    requires
        within(j@, 127),
    ensures
        value_tree(value) == json_value(j@),
        writable(j@) ==> alike(j@, value_tree(value), 1),
{
    match j {
        Json::Null => serde_json::Value::Null,
        Json::Bool(b) => serde_json::Value::Bool(*b),
        Json::Number(s) => s.parse().map_or(serde_json::Value::Null, serde_json::Value::Number),
        Json::Text(s) => serde_json::Value::String(s.clone()),
        Json::Array(a) => serde_json::Value::Array(a.iter().map(to_value).collect()),
        Json::Object(m) => {
            serde_json::Value::Object(m.iter().map(|x| (x.key.clone(), to_value(&x.value))).collect())
        },
    }
}

/// Whether `after` is an object with the members of `before` and the one given,
/// in place of that of its key where there was one.
pub open spec fn member_set(
    before: Seq<MemberView>,
    key: Seq<char>,
    item: JsonView,
    after: JsonView,
) -> bool {
    exists|p: int| member_set_at(before, key, item, after, p)
}

/// What `member_set` says, for the position of the member.
pub open spec fn member_set_at(
    before: Seq<MemberView>,
    key: Seq<char>,
    item: JsonView,
    after: JsonView,
    p: int,
) -> bool {
    let m = MemberView { key, value: item };
    ||| {
        &&& 0 <= p < before.len()
        &&& before[p].key == key
        &&& forall|i: int| 0 <= i < p ==> (#[trigger] before[i]).key != key
        &&& after == JsonView::Object(before.update(p, m))
    }
    ||| {
        &&& 0 <= p <= before.len()
        &&& forall|i: int| 0 <= i < before.len() ==> (#[trigger] before[i]).key != key
        &&& after == JsonView::Object(before.insert(p, m))
    }
}

/// Sets a member of an object with `serde_json::Map::insert`, and leaves any
/// other value alone.
#[verifier::external_body]
pub(crate) fn insert_member(
    value: &mut serde_json::Value,
    key: &str,
    item: serde_json::Value,
) -> (r: bool)
    ensures
        r == (value_tree(*old(value)) is Object),
        r ==> member_set(
            value_tree(*old(value))->Object_0,
            key@,
            value_tree(item),
            value_tree(*final(value)),
        ),
        !r ==> *final(value) == *old(value),
{
    match value.as_object_mut() {
        Some(map) => {
            map.insert(key.to_owned(), item);
            true
        },
        None => false,
    }
}

/// Whether a text reads back as a tree that is like the one given.
pub open spec fn reads_back(text: Seq<char>, tree: JsonView) -> bool {
    match json_document(text) {
        Ok(back) => alike(tree, back, 1),
        Err(_) => false,
    }
}

/// Writes a value with `serde_json::to_string`, which does not fail on a
/// `Value`. What is written depends on what the value holds. The text reads back
/// as the value, but that a number that is not plain may be displayed otherwise.
/// It then has the same value where it is exact, and any other is rounded by
/// less than one of 2^50 parts, as when a tree is copied. Of a number within
/// 10^-300 of zero nothing is claimed. The value nests no deeper than can be
/// read.
#[verifier::external_body]
pub(crate) fn write_value(value: &serde_json::Value) -> (r: Result<String, String>)
    requires
        within(value_tree(*value), 127),
    ensures
        match r {
            Ok(s) => s@ == json_text(value_tree(*value)) && reads_back(s@, value_tree(*value)),
            Err(_) => false,
        },
{
    match serde_json::to_string(value) {
        Ok(s) => Ok(s),
        Err(e) => Err(e.to_string()),
    }
}

// Members

/// The value of the first member called `key`.
pub open spec fn find_key(members: Seq<MemberView>, key: Seq<char>) -> Option<JsonView>
    decreases members.len(),
{
    if members.len() == 0 {
        None
    } else if members[0].key == key {
        Some(members[0].value)
    } else {
        find_key(members.skip(1), key)
    }
}

/// The member of an object called `key`.
pub open spec fn member(j: JsonView, key: Seq<char>) -> Option<JsonView> {
    match j {
        JsonView::Object(m) => find_key(m, key),
        _ => None,
    }
}

/// A field of a record: the member called `key` of an object, or the element
/// at `pos` of an array.
pub open spec fn field(j: JsonView, pos: nat, key: Seq<char>) -> Option<JsonView> {
    match j {
        JsonView::Array(a) => if pos < a.len() { Some(a[pos as int]) } else { None },
        _ => member(j, key),
    }
}

/// Whether a value can be a record: an object, or an array of `min` to `max`
/// fields.
pub open spec fn is_record(j: JsonView, min: nat, max: nat) -> bool {
    match j {
        JsonView::Object(_) => true,
        JsonView::Array(a) => min <= a.len() <= max,
        _ => false,
    }
}

/// A field that is there and not null.
pub open spec fn present(f: Option<JsonView>) -> Option<JsonView> {
    match f {
        Some(JsonView::Null) => None,
        _ => f,
    }
}

/// Whether a field is absent, null or a text.
pub open spec fn text_ok(f: Option<JsonView>) -> bool {
    match present(f) {
        None => true,
        Some(JsonView::Text(_)) => true,
        Some(_) => false,
    }
}

/// The text of a field.
pub open spec fn text_of(f: Option<JsonView>) -> Option<Seq<char>> {
    match f {
        Some(JsonView::Text(s)) => Some(s),
        _ => None,
    }
}

/// The unsigned integer that a number is.
pub open spec fn number_of(f: Option<JsonView>, max: nat) -> Option<nat> {
    match f {
        Some(JsonView::Number(s)) => text::unsigned_value(s, 10, max),
        _ => None,
    }
}

/// Whether a field is absent, null, or an unsigned integer of at most `max`.
pub open spec fn number_ok(f: Option<JsonView>, max: nat) -> bool {
    present(f) is None || number_of(f, max) is Some
}

/// A reading: a number as it stands, or a text that holds a number between
/// whitespace.
pub open spec fn reading_of(f: Option<JsonView>) -> Option<Seq<char>> {
    match f {
        Some(JsonView::Number(s)) => Some(s),
        Some(JsonView::Text(s)) => if text::is_float(text::trimmed(s)) {
            Some(text::trimmed(s))
        } else {
            None
        },
        _ => None,
    }
}

/// An unsigned integer, as a number or as a text.
pub open spec fn count_of(f: Option<JsonView>, max: nat) -> Option<nat> {
    match f {
        Some(JsonView::Number(s)) => text::unsigned_value(s, 10, max),
        Some(JsonView::Text(s)) => text::unsigned_value(text::trimmed(s), 10, max),
        _ => None,
    }
}

/// A signed integer, as a number or as a text.
pub open spec fn signed_of(f: Option<JsonView>) -> Option<int> {
    match f {
        Some(JsonView::Number(s)) => text::signed_value(s),
        Some(JsonView::Text(s)) => text::signed_value(text::trimmed(s)),
        _ => None,
    }
}

proof fn lemma_find_key(members: Seq<MemberView>, key: Seq<char>, i: int)
    requires
        0 <= i <= members.len(),
        forall|k: int| 0 <= k < i ==> (#[trigger] members[k]).key != key,
    ensures
        i == members.len() ==> find_key(members, key) is None,
        i < members.len() && members[i].key == key ==> find_key(members, key) == Some(members[i].value),
    decreases i,
{
    if i > 0 {
        assert(members[0].key != key);
        assert forall|k: int| 0 <= k < i - 1 implies (#[trigger] members.skip(1)[k]).key != key by {
            assert(members.skip(1)[k] == members[k + 1]);
        }
        lemma_find_key(members.skip(1), key, i - 1);
    }
}

/// Whether a text is a number that JSON can hold.
pub fn is_number_chars(s: &[char]) -> (r: bool)
    ensures
        r == is_number_text(s@),
{
    let n: usize = s.len();
    if n > 300 {
        return false;
    }
    let from: usize = if n > 0 && s[0] == '-' { 1 } else { 0 };
    let b = text::slice_of(s, from, n);
    assert(b@ =~= without_minus(s@));
    let k: usize = text::scan_digits(b.as_slice(), 0);
    if k == 0 || (b[0] == '0' && k != 1) {
        return false;
    }
    k == b.len() || (b[k] == '.' && k + 1 < b.len() && text::scan_digits(b.as_slice(), k + 1)
        == b.len())
}

/// Whether an optional value is like another.
pub open spec fn alike_opt(a: Option<JsonView>, b: Option<JsonView>, n: nat) -> bool {
    match (a, b) {
        (Some(x), Some(y)) => alike(x, y, n),
        (None, None) => true,
        _ => false,
    }
}

proof fn lemma_number_is_ordinary(s: Seq<char>)
    requires
        is_number_text(s),
    ensures
        is_scalable(s),
        scaled(s) == 0 || magnitude(scaled(s)) >= pow(10, 102),
{
    let b = without_minus(s);
    let k = text::digits_end(b, 0);
    lemma_digits_end_bounds(b, 0);
    assert(mantissa_end(b) == b.len());
    assert(b.skip(mantissa_end(b)).len() == 0);
    assert(-298 <= number_exponent(b) <= 0);
    let d = text::digits_value(number_digits(b), 10);
    let up = (400 + number_exponent(b)) as nat;
    vstd::arithmetic::power::lemma_pow_increases(10, 102, up);
    vstd::arithmetic::power::lemma_pow_positive(10, 102);
    if d > 0 {
        assert(d * pow(10, up) >= pow(10, up)) by (nonlinear_arith)
            requires
                d >= 1,
                pow(10, up) > 0,
        ;
    } else {
        assert(d * pow(10, up) == 0) by (nonlinear_arith)
            requires
                d == 0,
        ;
    }
}

proof fn lemma_digits_end_bounds(s: Seq<char>, i: int)
    requires
        0 <= i <= s.len(),
    ensures
        i <= text::digits_end(s, i) <= s.len(),
    decreases s.len() - i,
{
    if i < s.len() && text::is_digit(s[i]) {
        lemma_digits_end_bounds(s, i + 1);
    }
}

proof fn lemma_kept_twice(s: Seq<char>, t: Seq<char>, u: Seq<char>)
    requires
        is_number_text(s),
        number_kept(s, t, 1),
        number_kept(t, u, 1),
    ensures
        number_kept(s, u, 3),
{
    lemma_number_is_ordinary(s);
    vstd::arithmetic::power::lemma_pow_adds(10, 100, 2);
    vstd::arithmetic::power::lemma_pow_positive(10, 100);
    assert(pow(10, 2) == 100) by {
        reveal_with_fuel(pow, 3);
    }
    assert(pow(10, 102) == 100 * pow(10, 100)) by (nonlinear_arith)
        requires
            pow(10, 102) == pow(10, 100) * pow(10, 2),
            pow(10, 2) == 100,
    ;
    assert(is_ordinary(s));
    assert(is_near(s, t, 1));
    assert(is_ordinary(t));
    assert(is_near(t, u, 1));
}

/// A tree of numbers that JSON can hold, which is like a second, which is like a
/// third, is like the third.
pub proof fn lemma_alike_twice(a: JsonView, b: JsonView, c: JsonView)
    requires
        writable(a),
        alike(a, b, 1),
        alike(b, c, 1),
    ensures
        alike(a, c, 3),
    decreases a,
{
    match a {
        JsonView::Number(s) => {
            lemma_kept_twice(s, b->Number_0, c->Number_0);
        },
        JsonView::Array(x) => {
            let y = b->Array_0;
            let z = c->Array_0;
            assert forall|i: int| 0 <= i < x.len() implies alike(#[trigger] x[i], z[i], 3) by {
                assert(alike(y[i], z[i], 1));
                lemma_alike_twice(x[i], y[i], z[i]);
            }
        },
        JsonView::Object(x) => {
            let y = b->Object_0;
            let z = c->Object_0;
            assert forall|i: int| 0 <= i < x.len() implies (#[trigger] x[i]).key == z[i].key
                && alike(x[i].value, z[i].value, 3) by {
                assert(y[i].key == z[i].key && alike(y[i].value, z[i].value, 1));
                lemma_alike_twice(x[i].value, y[i].value, z[i].value);
            }
        },
        _ => {},
    }
}

/// A reading that is a single-precision number is read as that number again,
/// however it is written in between.
pub proof fn law_single_precision_survives(s: Seq<char>, t: Seq<char>)
    requires
        is_number_text(s),
        number_kept(s, t, 3),
    ensures
        single_kept(s, t),
{
    lemma_number_is_ordinary(s);
    vstd::arithmetic::power::lemma_pow_increases(10, 100, 102);
    assert(is_near(s, t, 3));
    let size = magnitude(scaled(s));
    let off = magnitude(scaled(s) - scaled(t));
    let unit = pow(2, 149);
    vstd::arithmetic::power::lemma_pow_positive(2, 149);
    assert forall|m: nat, q: nat| #[trigger] is_single(s, m, q) implies reads_as_single(
        s,
        t,
        q,
    ) by {
        let step = pow(2, q) * pow(10, 400);
        vstd::arithmetic::power::lemma_pow_positive(2, q);
        vstd::arithmetic::power::lemma_pow_positive(10, 400);
        assert(step > 0) by (nonlinear_arith)
            requires
                step == pow(2, q) * pow(10, 400),
                pow(2, q) > 0,
                pow(10, 400) > 0,
        ;
        assert(off * unit * 0x4_0000_0000_0000 <= 3 * (size * unit)) by (nonlinear_arith)
            requires
                off * 0x4_0000_0000_0000 <= 3 * size,
                unit > 0,
        ;
        assert(m * step <= 0xff_ffff * step) by (nonlinear_arith)
            requires
                m <= 0xff_ffff,
                step > 0,
        ;
    }
}

/// A value nests as deep as one that it is like.
pub proof fn lemma_alike_within(a: JsonView, b: JsonView, levels: nat, n: nat)
    requires
        alike(a, b, n),
        within(a, levels),
    ensures
        within(b, levels),
    decreases levels,
{
    match a {
        JsonView::Array(x) => {
            let y = b->Array_0;
            assert forall|i: int| 0 <= i < y.len() implies within(
                #[trigger] y[i],
                (levels - 1) as nat,
            ) by {
                assert(alike(x[i], y[i], n));
                lemma_alike_within(x[i], y[i], (levels - 1) as nat, n);
            }
        },
        JsonView::Object(x) => {
            let y = b->Object_0;
            assert forall|i: int| 0 <= i < y.len() implies within(
                (#[trigger] y[i]).value,
                (levels - 1) as nat,
            ) by {
                assert(x[i].key == y[i].key && alike(x[i].value, y[i].value, n));
                lemma_alike_within(x[i].value, y[i].value, (levels - 1) as nat, n);
            }
        },
        _ => {},
    }
}

/// A value that nests so deep nests no deeper.
pub proof fn lemma_within_more(j: JsonView, levels: nat, more: nat)
    requires
        within(j, levels),
        levels <= more,
    ensures
        within(j, more),
    decreases levels,
{
    match j {
        JsonView::Array(a) => {
            assert forall|i: int| 0 <= i < a.len() implies within(
                #[trigger] a[i],
                (more - 1) as nat,
            ) by {
                lemma_within_more(a[i], (levels - 1) as nat, (more - 1) as nat);
            }
        },
        JsonView::Object(m) => {
            assert forall|i: int| 0 <= i < m.len() implies within(
                (#[trigger] m[i]).value,
                (more - 1) as nat,
            ) by {
                lemma_within_more(m[i].value, (levels - 1) as nat, (more - 1) as nat);
            }
        },
        _ => {},
    }
}

/// The members of objects that are alike are alike.
pub proof fn lemma_alike_key(x: Seq<MemberView>, y: Seq<MemberView>, key: Seq<char>, n: nat)
    requires
        x.len() == y.len(),
        forall|i: int|
            0 <= i < x.len() ==> (#[trigger] x[i]).key == y[i].key && alike(x[i].value, y[i].value, n),
    ensures
        alike_opt(find_key(x, key), find_key(y, key), n),
    decreases x.len(),
{
    if x.len() > 0 {
        assert(x[0].key == y[0].key && alike(x[0].value, y[0].value, n));
        if x[0].key != key {
            assert forall|i: int| 0 <= i < x.skip(1).len() implies (#[trigger] x.skip(1)[i]).key
                == y.skip(1)[i].key && alike(x.skip(1)[i].value, y.skip(1)[i].value, n) by {
                assert(x[i + 1].key == y[i + 1].key && alike(x[i + 1].value, y[i + 1].value, n));
            }
            lemma_alike_key(x.skip(1), y.skip(1), key, n);
        }
    }
}

/// The fields of records that are alike are alike.
pub proof fn lemma_alike_fields(a: JsonView, b: JsonView, n: nat)
    requires
        alike(a, b, n),
    ensures
        forall|pos: nat, key: Seq<char>|
            alike_opt(#[trigger] field(a, pos, key), field(b, pos, key), n),
        forall|min: nat, max: nat| #[trigger] is_record(a, min, max) == is_record(b, min, max),
{
    assert forall|pos: nat, key: Seq<char>| alike_opt(
        #[trigger] field(a, pos, key),
        field(b, pos, key),
        n,
    ) by {
        match a {
            JsonView::Object(x) => {
                lemma_alike_key(x, b->Object_0, key, n);
            },
            JsonView::Array(x) => {
                if pos < x.len() {
                    assert(alike(x[pos as int], b->Array_0[pos as int], n));
                }
            },
            _ => {},
        }
    }
}

/// Setting a member of an object changes that member alone.
pub proof fn lemma_member_set(
    before: Seq<MemberView>,
    key: Seq<char>,
    item: JsonView,
    after: JsonView,
    other: Seq<char>,
)
    requires
        member_set(before, key, item, after),
    ensures
        after is Object,
        member(after, other) == if other == key { Some(item) } else { find_key(before, other) },
{
    let p = choose|p: int| member_set_at(before, key, item, after, p);
    lemma_member_set_at(before, key, item, after, p, other);
}

proof fn lemma_member_set_at(
    before: Seq<MemberView>,
    key: Seq<char>,
    item: JsonView,
    after: JsonView,
    p: int,
    other: Seq<char>,
)
    requires
        member_set_at(before, key, item, after, p),
    ensures
        after is Object,
        member(after, other) == if other == key { Some(item) } else { find_key(before, other) },
    decreases before.len(),
{
    let m = MemberView { key, value: item };
    let list = after->Object_0;
    if p == 0 {
        if 0 < before.len() && before[0].key == key && list == before.update(0, m) {
            assert(list.skip(1) =~= before.skip(1));
        } else {
            assert(list.skip(1) =~= before);
        }
    } else {
        let rest = before.skip(1);
        assert(list[0] == before[0]);
        assert forall|i: int| 0 <= i < rest.len() implies #[trigger] rest[i] == before[i + 1] by {}
        if 0 <= p < before.len() && before[p].key == key && list == before.update(p, m) {
            assert(list.skip(1) =~= rest.update(p - 1, m));
            assert(rest[p - 1] == before[p]);
        } else {
            assert(list.skip(1) =~= rest.insert(p - 1, m));
        }
        assert(before[0].key != key);
        lemma_member_set_at(before.skip(1), key, item, JsonView::Object(list.skip(1)), p - 1, other);
    }
}

/// Setting a member to a value that nests no deeper keeps the depth of the
/// object.
pub proof fn lemma_member_set_within(
    before: Seq<MemberView>,
    key: Seq<char>,
    item: JsonView,
    after: JsonView,
    levels: nat,
)
    requires
        member_set(before, key, item, after),
        within(JsonView::Object(before), levels),
        levels > 0,
        within(item, (levels - 1) as nat),
    ensures
        within(after, levels),
{
    let p = choose|p: int| member_set_at(before, key, item, after, p);
    let m = MemberView { key, value: item };
    let list = after->Object_0;
    assert forall|i: int| 0 <= i < list.len() implies within(
        (#[trigger] list[i]).value,
        (levels - 1) as nat,
    ) by {
        if list == before.update(p, m) && 0 <= p < before.len() {
            if i != p {
                assert(list[i] == before[i]);
            }
        } else {
            if i < p {
                assert(list[i] == before[i]);
            } else if i > p {
                assert(list[i] == before[i - 1]);
            }
        }
    }
}

proof fn lemma_before_twice(a: Seq<char>, b: Seq<char>, c: Seq<char>)
    requires
        comes_before(a, b),
        comes_before(b, c),
    ensures
        comes_before(a, c),
{
    let k = choose|k: int| before_at(a, b, k);
    let l = choose|l: int| before_at(b, c, l);
    let n = if k < l { k } else { l };
    assert forall|i: int| 0 <= i < n implies #[trigger] a[i] == c[i] by {
        assert(a[i] == b[i] && b[i] == c[i]);
    }
    assert(before_at(a, c, n));
}

proof fn lemma_ascending_pair(m: Seq<MemberView>, i: int, j: int)
    requires
        ascending(m),
        0 <= i < j < m.len(),
    ensures
        comes_before(m[i].key, m[j].key),
    decreases j - i,
{
    assert(comes_before(m[i].key, m[i + 1].key));
    if i + 1 < j {
        lemma_ascending_pair(m, i + 1, j);
        lemma_before_twice(m[i].key, m[i + 1].key, m[j].key);
    }
}

/// The member at a position of an object whose keys ascend is found by its
/// key, in every object that is like it.
pub proof fn lemma_ascending_key(x: Seq<MemberView>, y: JsonView, i: int, n: nat)
    requires
        ascending(x),
        alike(JsonView::Object(x), y, n),
        0 <= i < x.len(),
    ensures
        member(y, x[i].key) == Some(y->Object_0[i].value),
        alike(x[i].value, y->Object_0[i].value, n),
{
    let m = y->Object_0;
    assert forall|k: int| 0 <= k < i implies (#[trigger] m[k]).key != x[i].key by {
        lemma_ascending_pair(x, k, i);
        assert(x[k].key == m[k].key);
        let d = choose|d: int| before_at(x[k].key, x[i].key, d);
        assert(before_at(x[k].key, x[i].key, d));
    }
    assert(x[i].key == m[i].key);
    lemma_find_key(m, x[i].key, i);
}

/// No key of an object is found that is none of its keys.
pub proof fn lemma_no_key(x: Seq<MemberView>, y: JsonView, key: Seq<char>, n: nat)
    requires
        alike(JsonView::Object(x), y, n),
        forall|i: int| 0 <= i < x.len() ==> (#[trigger] x[i]).key != key,
    ensures
        member(y, key) is None,
{
    let m = y->Object_0;
    assert forall|k: int| 0 <= k < m.len() implies (#[trigger] m[k]).key != key by {
        assert(x[k].key == m[k].key);
    }
    lemma_find_key(m, key, m.len() as int);
}

proof fn lemma_digits_run(s: Seq<char>, i: int)
    requires
        0 <= i <= s.len(),
        forall|k: int| i <= k < s.len() ==> text::is_digit(#[trigger] s[k]),
    ensures
        text::digits_end(s, i) == s.len(),
    decreases s.len() - i,
{
    if i < s.len() {
        lemma_digits_run(s, i + 1);
    }
}

proof fn lemma_decimal_shape(n: nat)
    ensures
        text::decimal(n).len() > 0,
        n > 0 ==> text::decimal(n)[0] != '0',
        n == 0 ==> text::decimal(n).len() == 1,
        forall|k: int| 0 <= k < text::decimal(n).len() ==> text::is_digit(#[trigger] text::decimal(n)[k]),
    decreases n,
{
    if n >= 10 {
        lemma_decimal_shape(n / 10);
    }
}

proof fn lemma_decimal_length(n: nat, d: nat)
    requires
        n < vstd::arithmetic::power::pow(10, d),
        d > 0,
    ensures
        text::decimal(n).len() <= d,
    decreases d,
{
    broadcast use vstd::arithmetic::power::group_pow_properties;

    if n >= 10 {
        if d == 1 {
            vstd::arithmetic::power::lemma_pow1(10);
        } else {
            assert(vstd::arithmetic::power::pow(10, d) == 10 * vstd::arithmetic::power::pow(
                10,
                (d - 1) as nat,
            ));
            lemma_decimal_length(n / 10, (d - 1) as nat);
        }
    }
}

/// The decimal text of a 64-bit number is a plain JSON number, and reads as
/// that number.
pub proof fn lemma_decimal_is_number(n: nat)
    requires
        n <= u64::MAX,
    ensures
        is_number_text(text::decimal(n)),
        is_plain_number(text::decimal(n)),
        forall|max: nat|
            n <= max ==> #[trigger] text::unsigned_value(text::decimal(n), 10, max) == Some(n),
{
    let s = text::decimal(n);
    lemma_decimal_shape(n);
    lemma_digits_run(s, 0);
    assert(text::is_digit(s[0]));
    assert(without_minus(s) == s);
    assert(vstd::arithmetic::power::pow(10, 20) > u64::MAX) by {
        reveal_with_fuel(vstd::arithmetic::power::pow, 21);
    }
    lemma_decimal_length(n, 20);
    text::law_decimal_reads_back(n);
    assert(text::without_plus(s) == s);
}

impl Json {
    /// A copy of the whole tree.
    pub fn dup(&self) -> (r: Json)
        ensures
            r@ == self@,
        decreases self,
    {
        match self {
            Json::Null => Json::Null,
            Json::Bool(b) => Json::Bool(*b),
            Json::Number(s) => Json::Number(s.clone()),
            Json::Text(s) => Json::Text(s.clone()),
            Json::Array(a) => {
                let mut out: Vec<Json> = Vec::new();
                for i in 0..a.len()
                    invariant
                        *self == Json::Array(*a),
                        out@.len() == i,
                        forall|k: int| 0 <= k < i ==> (#[trigger] out@[k])@ == a@[k]@,
                {
                    assert(decreases_to!(self => self->Array_0@[i as int]));
                    out.push(a[i].dup());
                }
                proof {
                    lemma_array_view(*a);
                    lemma_array_view(out);
                    assert(Json::Array(out)@->Array_0 =~= self@->Array_0);
                }
                Json::Array(out)
            },
            Json::Object(m) => {
                let mut out: Vec<Member> = Vec::new();
                for i in 0..m.len()
                    invariant
                        *self == Json::Object(*m),
                        out@.len() == i,
                        forall|k: int|
                            0 <= k < i ==> (#[trigger] out@[k]).key@ == m@[k].key@ && out@[k].value@
                                == m@[k].value@,
                {
                    assert(decreases_to!(self => self->Object_0@[i as int].value));
                    out.push(Member { key: m[i].key.clone(), value: m[i].value.dup() });
                }
                proof {
                    lemma_object_view(*m);
                    lemma_object_view(out);
                    assert(Json::Object(out)@->Object_0 =~= self@->Object_0);
                }
                Json::Object(out)
            },
        }
    }

    /// The member of an object called `key`.
    pub fn get(&self, key: &str) -> (r: Option<&Json>)
        ensures
            opt_json(r) == member(self@, key@),
    {
        match self {
            Json::Object(m) => {
                proof {
                    lemma_object_view(*m);
                }
                let ghost view = self@->Object_0;
                for i in 0..m.len()
                    invariant
                        self@ == JsonView::Object(view),
                        *self == Json::Object(*m),
                        view.len() == m@.len(),
                        forall|k: int|
                            0 <= k < m@.len() ==> #[trigger] view[k] == (MemberView {
                                key: m@[k].key@,
                                value: m@[k].value@,
                            }),
                        forall|k: int| 0 <= k < i ==> (#[trigger] view[k]).key != key@,
                {
                    assert(view[i as int].key == m@[i as int].key@);
                    if str_eq(m[i].key.as_str(), key) {
                        proof {
                            lemma_find_key(view, key@, i as int);
                        }
                        return Some(&m[i].value);
                    }
                }
                proof {
                    lemma_find_key(view, key@, m@.len() as int);
                }
                None
            },
            _ => None,
        }
    }

    /// A field of a record.
    pub fn field(&self, pos: usize, key: &str) -> (r: Option<&Json>)
        ensures
            opt_json(r) == field(self@, pos as nat, key@),
    {
        match self {
            Json::Array(a) => if pos < a.len() {
                Some(&a[pos])
            } else {
                None
            },
            _ => self.get(key),
        }
    }

    /// Whether the value can be a record of `min` to `max` fields.
    pub fn is_record(&self, min: usize, max: usize) -> (r: bool)
        ensures
            r == is_record(self@, min as nat, max as nat),
    {
        match self {
            Json::Object(_) => true,
            Json::Array(a) => min <= a.len() && a.len() <= max,
            _ => false,
        }
    }
}

/// A field that is there and not null.
pub fn if_present<'a>(f: Option<&'a Json>) -> (r: Option<&'a Json>)
    ensures
        opt_json(r) == present(opt_json(f)),
{
    match f {
        Some(Json::Null) => None,
        _ => f,
    }
}

/// Whether a field is absent, null or a text.
pub fn is_text_field(f: Option<&Json>) -> (r: bool)
    ensures
        r == text_ok(opt_json(f)),
{
    match f {
        None => true,
        Some(Json::Null) => true,
        Some(Json::Text(_)) => true,
        _ => false,
    }
}

/// The text of a field.
pub fn text_field(f: Option<&Json>) -> (r: Option<String>)
    ensures
        text::opt_text(r) == text_of(opt_json(f)),
{
    match f {
        Some(Json::Text(s)) => Some(s.clone()),
        _ => None,
    }
}

/// The unsigned integer that a number is.
pub fn number_field(f: Option<&Json>, max: u64) -> (r: Option<u64>)
    ensures
        text::opt_nat(r) == number_of(opt_json(f), max as nat),
{
    match f {
        Some(Json::Number(s)) => {
            let v = text::chars_of(s.as_str());
            parse_unsigned(v.as_slice(), 10, max)
        },
        _ => None,
    }
}

/// Whether a field is absent, null, or an unsigned integer of at most `max`.
pub fn is_number_field(f: Option<&Json>, max: u64) -> (r: bool)
    ensures
        r == number_ok(opt_json(f), max as nat),
{
    match f {
        None => true,
        Some(Json::Null) => true,
        _ => number_field(f, max).is_some(),
    }
}

/// A reading, as the text of its number.
pub fn reading_field(f: Option<&Json>) -> (r: Option<String>)
    ensures
        text::opt_text(r) == reading_of(opt_json(f)),
{
    match f {
        Some(Json::Number(s)) => Some(s.clone()),
        Some(Json::Text(s)) => {
            let v = trim_chars(s.as_str());
            if text::is_float_literal(v.as_slice()) {
                Some(string_of(v.as_slice()))
            } else {
                None
            }
        },
        _ => None,
    }
}

/// An unsigned integer, as a number or as a text.
pub fn count_field(f: Option<&Json>, max: u64) -> (r: Option<u64>)
    ensures
        text::opt_nat(r) == count_of(opt_json(f), max as nat),
{
    match f {
        Some(Json::Number(s)) => {
            let v = text::chars_of(s.as_str());
            parse_unsigned(v.as_slice(), 10, max)
        },
        Some(Json::Text(s)) => {
            let v = trim_chars(s.as_str());
            parse_unsigned(v.as_slice(), 10, max)
        },
        _ => None,
    }
}

/// A signed integer, as a number or as a text.
pub fn signed_field(f: Option<&Json>) -> (r: Option<i64>)
    ensures
        text::opt_int(r) == signed_of(opt_json(f)),
{
    match f {
        Some(Json::Number(s)) => {
            let v = text::chars_of(s.as_str());
            text::parse_signed(v.as_slice())
        },
        Some(Json::Text(s)) => {
            let v = trim_chars(s.as_str());
            text::parse_signed(v.as_slice())
        },
        _ => None,
    }
}

/// A member of an object is found by its name, wherever it stands: the value of
/// the first of that name, and nothing where there is none.
pub proof fn law_members_are_found_by_name(members: Seq<MemberView>, key: Seq<char>)
    ensures
        forall|i: int|
            0 <= i < members.len() && (#[trigger] members[i]).key == key && (forall|k: int|
                0 <= k < i ==> (#[trigger] members[k]).key != key) ==> member(
                JsonView::Object(members),
                key,
            ) == Some(members[i].value),
        (forall|k: int| 0 <= k < members.len() ==> (#[trigger] members[k]).key != key) ==> member(
            JsonView::Object(members),
            key,
        ) is None,
{
    assert forall|i: int|
        0 <= i < members.len() && (#[trigger] members[i]).key == key && (forall|k: int|
            0 <= k < i ==> (#[trigger] members[k]).key != key) implies member(
        JsonView::Object(members),
        key,
    ) == Some(members[i].value) by {
        lemma_find_key(members, key, i);
    }
    if forall|k: int| 0 <= k < members.len() ==> (#[trigger] members[k]).key != key {
        lemma_find_key(members, key, members.len() as int);
    }
}

/// A quantity may be reported as a number or as a text that holds one, with
/// blanks around it or without: it is the same reading and the same count.
pub proof fn law_numbers_and_texts_read_alike(before: Seq<char>, n: nat, after: Seq<char>, max: nat)
    requires
        text::all_white(before),
        text::all_white(after),
    ensures
        reading_of(Some(JsonView::Number(text::decimal(n)))) == Some(text::decimal(n)),
        reading_of(Some(JsonView::Text(before + text::decimal(n) + after))) == Some(
            text::decimal(n),
        ),
        n <= max ==> count_of(Some(JsonView::Number(text::decimal(n))), max) == Some(n),
        n <= max ==> count_of(
            Some(JsonView::Text(before + text::decimal(n) + after)),
            max,
        ) == Some(n),
        n > max ==> count_of(Some(JsonView::Number(text::decimal(n))), max) is None,
        n <= i64::MAX ==> signed_of(Some(JsonView::Number(text::decimal(n)))) == Some(n as int),
        n <= i64::MAX ==> signed_of(
            Some(JsonView::Text(before + text::decimal(n) + after)),
        ) == Some(n as int),
        reading_of(None) is None && count_of(None, max) is None && signed_of(None) is None,
        reading_of(Some(JsonView::Null)) is None && count_of(Some(JsonView::Null), max) is None,
{
    let d = text::decimal(n);
    text::law_decimal_reads_back(n);
    assert(text::digit_value(d[0], 10) is Some);
    assert(text::digit_value(d[d.len() - 1], 10) is Some);
    assert(d.last() == d[d.len() - 1]);
    text::law_trimming_leaves_the_text(before, d, after);
    lemma_decimal_shape(n);
    assert forall|k: int| 0 <= k < d.len() implies text::is_digit(#[trigger] d[k]) by {
        assert(text::digit_value(d[k], 10) is Some);
    }
    lemma_digits_run(d, 0);
    if n <= i64::MAX {
        text::law_signed_numbers_read_back(n as int);
    }
}

/// A member that is set is found with its new value, and every other member is found as
/// it was.
pub proof fn law_set_members_are_found(
    before: Seq<MemberView>,
    key: Seq<char>,
    item: JsonView,
    after: JsonView,
    other: Seq<char>,
)
    requires
        member_set(before, key, item, after),
    ensures
        after is Object,
        member(after, key) == Some(item),
        other != key ==> member(after, other) == member(JsonView::Object(before), other),
{
    let p = choose|p: int| member_set_at(before, key, item, after, p);
    let m = MemberView { key, value: item };
    if 0 <= p < before.len() && before[p].key == key {
        lemma_find_updated(before, m, p, key);
        lemma_find_updated(before, m, p, other);
    } else {
        lemma_find_inserted(before, m, p, key);
        lemma_find_inserted(before, m, p, other);
    }
}

proof fn lemma_find_updated(before: Seq<MemberView>, m: MemberView, p: int, key: Seq<char>)
    requires
        0 <= p < before.len(),
        before[p].key == m.key,
        forall|i: int| 0 <= i < p ==> (#[trigger] before[i]).key != m.key,
    ensures
        key == m.key ==> find_key(before.update(p, m), key) == Some(m.value),
        key != m.key ==> find_key(before.update(p, m), key) == find_key(before, key),
    decreases before.len(),
{
    let after = before.update(p, m);
    if p == 0 {
        assert(after.skip(1) =~= before.skip(1));
    } else {
        assert(after[0] == before[0]);
        assert(after.skip(1) =~= before.skip(1).update(p - 1, m));
        lemma_find_updated(before.skip(1), m, p - 1, key);
    }
}

proof fn lemma_find_inserted(before: Seq<MemberView>, m: MemberView, p: int, key: Seq<char>)
    requires
        0 <= p <= before.len(),
        forall|i: int| 0 <= i < before.len() ==> (#[trigger] before[i]).key != m.key,
    ensures
        key == m.key ==> find_key(before.insert(p, m), key) == Some(m.value),
        key != m.key ==> find_key(before.insert(p, m), key) == find_key(before, key),
    decreases before.len(),
{
    let after = before.insert(p, m);
    if p == 0 {
        assert(after[0] == m);
        assert(after.skip(1) =~= before);
    } else {
        assert(after[0] == before[0]);
        assert(after.skip(1) =~= before.skip(1).insert(p - 1, m));
        lemma_find_inserted(before.skip(1), m, p - 1, key);
    }
}

/// The value of a number: its digits without the point, by the tenth power that the
/// exponent shows, less one for each place behind the point.
pub proof fn law_numbers_mean_their_digits(
    whole: Seq<char>,
    part: Seq<char>,
    exponent: Seq<char>,
    mark: char,
)
    requires
        text::is_digit_run(whole),
        text::is_digit_run(part),
        text::is_digit_run(exponent),
        mark == 'e' || mark == 'E',
    ensures
        number_digits(whole) == whole && number_exponent(whole) == 0,
        number_digits(whole + seq!['.'] + part) == whole + part,
        number_exponent(whole + seq!['.'] + part) == -(part.len() as int),
        number_digits(whole + seq!['.'] + part + seq![mark] + exponent) == whole + part,
        number_exponent(whole + seq!['.'] + part + seq![mark] + exponent) == text::digits_value(
            exponent,
            10,
        ) - part.len(),
        number_exponent(whole + seq!['.'] + part + seq![mark, '-'] + exponent)
            == -text::digits_value(exponent, 10) - part.len(),
        number_exponent(whole + seq![mark] + exponent) == text::digits_value(exponent, 10),
{
    let w = whole.len() as int;
    let p = part.len() as int;
    text::lemma_digits_end(whole, 0, w);
    assert(whole.take(w) =~= whole);
    let a = whole + seq!['.'] + part;
    text::lemma_digits_end(a, 0, w);
    text::lemma_digits_end(a, w + 1, w + 1 + p);
    assert(a.take(w) + a.subrange(w + 1, w + 1 + p) =~= whole + part);
    let b = whole + seq!['.'] + part + seq![mark] + exponent;
    text::lemma_digits_end(b, 0, w);
    text::lemma_digits_end(b, w + 1, w + 1 + p);
    assert(b.take(w) + b.subrange(w + 1, w + 1 + p) =~= whole + part);
    let e = b.skip(w + 1 + p);
    assert(e.skip(1) =~= exponent);
    assert(exponent[0] != '+' && exponent[0] != '-');
    assert(e[1] == exponent[0]);
    let c = whole + seq!['.'] + part + seq![mark, '-'] + exponent;
    text::lemma_digits_end(c, 0, w);
    text::lemma_digits_end(c, w + 1, w + 1 + p);
    let f = c.skip(w + 1 + p);
    assert(f[0] == mark && f[1] == '-');
    assert(f.skip(2) =~= exponent);
    let d = whole + seq![mark] + exponent;
    text::lemma_digits_end(d, 0, w);
    let g = d.skip(w);
    assert(g[1] == exponent[0]);
    assert(g.skip(1) =~= exponent);
}

/// Shortening a number takes the zeros off its end and leaves its value.
pub proof fn law_shortening_keeps_the_value(minus: bool, digits: nat, exponent: int)
    ensures
        ({
            let (m, d, e) = shortened(minus, digits, exponent);
            &&& digits == 0 ==> d == 0 && e == 0 && !m
            &&& digits > 0 ==> m == minus && d % 10 != 0 && e >= exponent && digits == d * pow(
                10,
                (e - exponent) as nat,
            )
        }),
    decreases digits,
{
    vstd::arithmetic::power::lemma_pow0(10);
    if digits > 0 && digits % 10 == 0 {
        law_shortening_keeps_the_value(minus, digits / 10, exponent + 1);
        let (m, d, e) = shortened(minus, digits / 10, exponent + 1);
        vstd::arithmetic::power::lemma_pow_adds(10, 1, (e - exponent - 1) as nat);
        vstd::arithmetic::power::lemma_pow1(10);
        let q = pow(10, (e - exponent - 1) as nat);
        assert(d * (10 * q) == 10 * (d * q)) by (nonlinear_arith);
    }
}

} // verus!
