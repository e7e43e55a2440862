//! Header fields as plain values, and the picking of allow-listed fields.

use crate::text::chars_of;
use vstd::prelude::*;
use vstd::slice::slice_to_vec;

verus! {

/// One header field. The value is kept as bytes: it need not be text.
pub struct Header {
    pub name: String,
    pub value: Vec<u8>,
}

/// Header fields as plain values: name and value, in order.
pub type Fields = Seq<(Seq<char>, Seq<u8>)>;

impl View for Header {
    type V = (Seq<char>, Seq<u8>);

    open spec fn view(&self) -> (Seq<char>, Seq<u8>) {
        (self.name@, self.value@)
    }
}

/// The fields that a list of headers holds.
pub open spec fn fields_of(headers: Seq<Header>) -> Fields {
    headers.map_values(|h: Header| h@)
}

/// The code of a character, with the ASCII capitals folded onto the small letters.
pub open spec fn folded(c: char) -> u32 {
    let n = c as u32;
    if 0x41 <= n <= 0x5A {
        (n + 32) as u32
    } else {
        n
    }
}

/// Whether two header names are the same name: they differ at most in the case of
/// ASCII letters.
pub open spec fn same_name(a: Seq<char>, b: Seq<char>) -> bool {
    a.len() == b.len() && forall|i: int| 0 <= i < a.len() ==> folded(a[i]) == folded(b[i])
}

/// The value of the first field named `name`.
pub open spec fn first_value(fields: Fields, name: Seq<char>) -> Option<Seq<u8>>
    decreases fields.len(),
{
    if fields.len() == 0 {
        None
    } else if same_name(fields[0].0, name) {
        Some(fields[0].1)
    } else {
        first_value(fields.skip(1), name)
    }
}

/// The field to forward for `name`: the name as the list has it, with the first
/// value that `fields` holds for it; nothing where `fields` holds none.
pub open spec fn picked(fields: Fields, name: Seq<char>) -> Fields {
    match first_value(fields, name) {
        Some(value) => seq![(name, value)],
        None => Seq::empty(),
    }
}

/// The fields to forward for a list of names, in the order of the list.
pub open spec fn selected(fields: Fields, names: Seq<Seq<char>>) -> Fields
    decreases names.len(),
{
    if names.len() == 0 {
        Seq::empty()
    } else {
        selected(fields, names.drop_last()) + picked(fields, names.last())
    }
}

/// Whether every byte of a value is a visible ASCII character, a space or a tab.
pub open spec fn is_visible_ascii(value: Seq<u8>) -> bool {
    forall|i: int| 0 <= i < value.len() ==> (32 <= #[trigger] value[i] < 127 || value[i] == 9)
}

/// The text of a value whose bytes are ASCII.
pub open spec fn ascii_text(value: Seq<u8>) -> Seq<char> {
    value.map_values(|b: u8| b as char)
}

impl Header {
    /// A header field with the given name and value.
    pub fn new(name: &str, value: &[u8]) -> (header: Header)
        ensures
            header@ == (name@, value@),
    {
        Header { name: name.to_owned(), value: slice_to_vec(value) }
    }
}

/// Folds an ASCII capital onto its small letter.
fn fold(c: char) -> (n: u32)
    ensures
        n == folded(c),
{
    let n: u32 = c as u32;
    if 0x41 <= n && n <= 0x5A {
        n + 32
    } else {
        n
    }
}

/// Tells whether `a` and `b` are the same header name.
pub fn is_same_name(a: &str, b: &str) -> (same: bool)
    ensures
        same == same_name(a@, b@),
{
    let left = chars_of(a);
    let right = chars_of(b);
    let n = left.len();
    if n != right.len() {
        return false;
    }
    let mut i: usize = 0;
    while i < n
        invariant
            n == left@.len(),
            n == right@.len(),
            left@ == a@,
            right@ == b@,
            i <= n,
            forall|j: int| 0 <= j < i ==> folded(a@[j]) == folded(b@[j]),
        decreases n - i,
    {
        if fold(left[i]) != fold(right[i]) {
            return false;
        }
        i += 1;
    }
    true
}

/// Finds the value of the first header named `name`.
pub fn lookup<'a>(headers: &'a Vec<Header>, name: &str) -> (value: Option<&'a Vec<u8>>)
    ensures
        match value {
            Some(v) => first_value(fields_of(headers@), name@) == Some(v@),
            None => first_value(fields_of(headers@), name@) is None,
        },
{
    let n = headers.len();
    let mut i: usize = 0;
    assert(fields_of(headers@).skip(0) =~= fields_of(headers@));
    while i < n
        invariant
            n == headers@.len(),
            i <= n,
            first_value(fields_of(headers@), name@) == first_value(
                fields_of(headers@).skip(i as int),
                name@,
            ),
        decreases n - i,
    {
        let ghost rest = fields_of(headers@).skip(i as int);
        assert(rest[0] == headers@[i as int]@);
        if is_same_name(headers[i].name.as_str(), name) {
            return Some(&headers[i].value);
        }
        assert(rest.skip(1) =~= fields_of(headers@).skip(i + 1));
        i += 1;
    }
    None
}

/// Appends to `out` the field to forward for `name`, if `from` holds one.
pub fn pick(out: &mut Vec<Header>, from: &Vec<Header>, name: &str)
    ensures
        fields_of(final(out)@) == fields_of(old(out)@) + picked(fields_of(from@), name@),
{
    match lookup(from, name) {
        Some(value) => {
            out.push(Header::new(name, value.as_slice()));
            assert(fields_of(out@) =~= fields_of(old(out)@) + seq![(name@, value@)]);
        },
        None => {
            assert(fields_of(out@) =~= fields_of(old(out)@) + Seq::<(Seq<char>, Seq<u8>)>::empty());
        },
    }
}

/// The texts of a list of names.
pub open spec fn names_of(names: Seq<&str>) -> Seq<Seq<char>> {
    names.map_values(|name: &str| name@)
}

/// Appends to `out` the fields to forward for `names`, in the order of the names.
pub fn pick_each(out: &mut Vec<Header>, from: &Vec<Header>, names: &[&str])
    ensures
        fields_of(final(out)@) == fields_of(old(out)@) + selected(
            fields_of(from@),
            names_of(names@),
        ),
{
    let n = names.len();
    let mut i: usize = 0;
    let ghost all = names_of(names@);
    assert(selected(fields_of(from@), all.take(0)) =~= Seq::<(Seq<char>, Seq<u8>)>::empty());
    while i < n
        invariant
            n == names@.len(),
            all == names_of(names@),
            i <= n,
            fields_of(out@) == fields_of(old(out)@) + selected(
                fields_of(from@),
                all.take(i as int),
            ),
        decreases n - i,
    {
        pick(out, from, names[i]);
        assert(all.take(i + 1).drop_last() =~= all.take(i as int));
        i += 1;
    }
    assert(all.take(n as int) =~= all);
}

/// Tells whether every byte of `value` is a visible ASCII character, a space or a
/// tab.
pub fn check_visible_ascii(value: &[u8]) -> (visible: bool)
    ensures
        visible == is_visible_ascii(value@),
{
    let n = value.len();
    let mut i: usize = 0;
    while i < n
        invariant
            n == value@.len(),
            i <= n,
            forall|j: int| 0 <= j < i ==> (32 <= #[trigger] value@[j] < 127 || value@[j] == 9),
        decreases n - i,
    {
        let b = value[i];
        if !((32 <= b && b < 127) || b == 9) {
            return false;
        }
        i += 1;
    }
    true
}

/// The characters of a value whose bytes are ASCII.
pub fn ascii_chars(value: &[u8]) -> (chars: Vec<char>)
    ensures
        chars@ == ascii_text(value@),
{
    let n = value.len();
    let mut chars: Vec<char> = Vec::new();
    let mut i: usize = 0;
    while i < n
        invariant
            n == value@.len(),
            i <= n,
            chars@ == ascii_text(value@.take(i as int)),
        decreases n - i,
    {
        chars.push(value[i] as char);
        i += 1;
        assert(ascii_text(value@.take(i as int)) =~= ascii_text(value@.take(i - 1)).push(
            value@[i - 1] as char,
        ));
    }
    assert(value@.take(n as int) =~= value@);
    chars
}

/// The values of all fields named `name`, in order.
pub open spec fn values_of(fields: Fields, name: Seq<char>) -> Seq<Seq<u8>>
    decreases fields.len(),
{
    if fields.len() == 0 {
        Seq::empty()
    } else if same_name(fields.last().0, name) {
        values_of(fields.drop_last(), name).push(fields.last().1)
    } else {
        values_of(fields.drop_last(), name)
    }
}

/// What a list of fields holds under `name`, as the one value that is forwarded
/// for it: its first value, or nothing.
pub open spec fn forwarded(fields: Fields, name: Seq<char>) -> Seq<Seq<u8>> {
    match first_value(fields, name) {
        Some(value) => seq![value],
        None => Seq::empty(),
    }
}

/// Whether `name` is one of `names`, as header names go.
pub open spec fn is_listed(names: Seq<Seq<char>>, name: Seq<char>) -> bool {
    exists|k: int| 0 <= k < names.len() && same_name(#[trigger] names[k], name)
}

/// Whether no two of `names` are the same header name.
pub open spec fn distinct_names(names: Seq<Seq<char>>) -> bool {
    forall|i: int, j: int|
        0 <= i < j < names.len() ==> !same_name(#[trigger] names[i], #[trigger] names[j])
}

/// Being the same header name is symmetric and transitive.
pub proof fn lemma_same_name(a: Seq<char>, b: Seq<char>, c: Seq<char>)
    ensures
        same_name(a, a),
        same_name(a, b) ==> same_name(b, a),
        same_name(a, b) && same_name(b, c) ==> same_name(a, c),
{
}

/// Two spellings of one name find the same first value.
pub proof fn lemma_first_value_by_name(fields: Fields, a: Seq<char>, b: Seq<char>)
    requires
        same_name(a, b),
    ensures
        first_value(fields, a) == first_value(fields, b),
    decreases fields.len(),
{
    if fields.len() > 0 {
        lemma_same_name(fields[0].0, a, b);
        lemma_same_name(a, b, a);
        lemma_same_name(fields[0].0, b, a);
        lemma_first_value_by_name(fields.skip(1), a, b);
    }
}

/// The values under a name in two lists put together are those of the first list
/// and then those of the second.
pub proof fn lemma_values_of_concat(a: Fields, b: Fields, name: Seq<char>)
    ensures
        values_of(a + b, name) == values_of(a, name) + values_of(b, name),
    decreases b.len(),
{
    if b.len() == 0 {
        assert(a + b =~= a);
        assert(values_of(a, name) + values_of(b, name) =~= values_of(a, name));
    } else {
        assert((a + b).drop_last() =~= a + b.drop_last());
        assert((a + b).last() == b.last());
        lemma_values_of_concat(a, b.drop_last(), name);
        if same_name(b.last().0, name) {
            assert(values_of(a, name) + values_of(b.drop_last(), name).push(b.last().1)
                =~= (values_of(a, name) + values_of(b.drop_last(), name)).push(b.last().1));
        }
    }
}

/// What was picked for one name holds, under that name, the value that is
/// forwarded for it, and nothing under any other name.
pub proof fn lemma_values_of_picked(fields: Fields, picked_name: Seq<char>, name: Seq<char>)
    ensures
        values_of(picked(fields, picked_name), name) == if same_name(picked_name, name) {
            forwarded(fields, name)
        } else {
            Seq::empty()
        },
{
    let one = picked(fields, picked_name);
    if same_name(picked_name, name) {
        lemma_first_value_by_name(fields, picked_name, name);
    }
    if one.len() > 0 {
        assert(one.drop_last() =~= Seq::<(Seq<char>, Seq<u8>)>::empty());
        assert(values_of(one.drop_last(), name) =~= Seq::<Seq<u8>>::empty());
        if same_name(picked_name, name) {
            assert(values_of(one, name) =~= forwarded(fields, name));
        }
    }
}

/// What was selected for a list of different names holds, under a name of the
/// list, the one value that is forwarded for it, and nothing under a name that is
/// not on the list.
pub proof fn lemma_values_of_selected(fields: Fields, names: Seq<Seq<char>>, name: Seq<char>)
    requires
        distinct_names(names),
    ensures
        values_of(selected(fields, names), name) == if is_listed(names, name) {
            forwarded(fields, name)
        } else {
            Seq::empty()
        },
    decreases names.len(),
{
    if names.len() > 0 {
        let before = names.drop_last();
        let last = names.last();
        assert(distinct_names(before)) by {
            assert forall|i: int, j: int| 0 <= i < j < before.len() implies !same_name(
                #[trigger] before[i],
                #[trigger] before[j],
            ) by {
                assert(before[i] == names[i] && before[j] == names[j]);
            }
        }
        lemma_values_of_selected(fields, before, name);
        lemma_values_of_concat(selected(fields, before), picked(fields, last), name);
        lemma_values_of_picked(fields, last, name);
        if same_name(last, name) {
            assert(is_listed(names, name)) by {
                assert(same_name(names[names.len() - 1], name));
            }
            assert(!is_listed(before, name)) by {
                if is_listed(before, name) {
                    let k = choose|k: int| 0 <= k < before.len() && same_name(
                        #[trigger] before[k],
                        name,
                    );
                    lemma_same_name(last, name, last);
                    lemma_same_name(before[k], name, last);
                    assert(before[k] == names[k]);
                    assert(same_name(names[k], names[names.len() - 1]));
                }
            }
            assert(Seq::<Seq<u8>>::empty() + forwarded(fields, name) =~= forwarded(fields, name));
        } else {
            assert(is_listed(names, name) == is_listed(before, name)) by {
                if is_listed(names, name) {
                    let k = choose|k: int| 0 <= k < names.len() && same_name(
                        #[trigger] names[k],
                        name,
                    );
                    assert(k < before.len());
                    assert(same_name(before[k], name));
                }
                if is_listed(before, name) {
                    let k = choose|k: int| 0 <= k < before.len() && same_name(
                        #[trigger] before[k],
                        name,
                    );
                    assert(same_name(names[k], name));
                }
            }
            assert(values_of(selected(fields, before), name) + Seq::<Seq<u8>>::empty()
                =~= values_of(selected(fields, before), name));
        }
    }
}

} // verus!
