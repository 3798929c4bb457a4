//! References inside a schema document: where each leads, and whether
//! following them comes to an end.
//!
//! A validator follows a reference whenever it meets one. Where a reference
//! leads back to where it began, and nothing on the way takes a step into the
//! reading, the validator would go round for ever. Such a document is told
//! apart here, before a reading is held against it.
//!
//! A schema may refer to itself below `properties`, `items` and the like: a
//! step into the reading ends with the reading. Chains that end may be as
//! long as they like, and a reference may lead anywhere in the document, or
//! nowhere. What is turned away besides the loops is what gives room for
//! doubt where a reference leads: a reference that does not begin with `#`,
//! or holds `%`, a blank or a control character; and, where there are
//! references, an `$id` below the root or one with a `#` in it. Every object
//! of the document is looked at, also one that no reading would reach.

use crate::config::{digits_value, is_digit, lemma_digits_value_grows};
use crate::json::Json;
use vstd::prelude::*;
use vstd::std_specs::vec::axiom_vec_index_decreases;
use vstd::string::StrSliceExecFns;

verus! {

/// The characters of `text`.
pub fn chars_of(text: &str) -> (r: Vec<char>)
    ensures
        r@ == text@,
{
    let n = text.unicode_len();
    let mut out: Vec<char> = Vec::new();
    let mut i: usize = 0;
    while i < n
        invariant
            i <= n,
            n == text@.len(),
            out@ == text@.take(i as int),
        decreases n - i,
    {
        out.push(text.get_char(i));
        proof {
            assert(text@.take(i + 1) =~= text@.take(i as int).push(text@[i as int]));
        }
        i += 1;
    }
    proof {
        assert(text@.take(n as int) =~= text@);
    }
    out
}

/// Whether two texts are the same.
pub fn same_text(a: &Vec<char>, b: &Vec<char>) -> (r: bool)
    ensures
        r == (a@ == b@),
{
    if a.len() != b.len() {
        return false;
    }
    let mut i: usize = 0;
    while i < a.len()
        invariant
            i <= a.len(),
            a.len() == b.len(),
            forall|j: int| 0 <= j < i ==> a@[j] == b@[j],
        decreases a.len() - i,
    {
        if a[i] != b[i] {
            return false;
        }
        i += 1;
    }
    proof {
        assert(a@ =~= b@);
    }
    true
}

/// The value of the first of `members` named `name`.
pub open spec fn member_among(members: Seq<(Vec<char>, Json)>, name: Seq<char>) -> Option<Json>
    decreases members.len(),
{
    if members.len() == 0 {
        None
    } else if members[0].0@ == name {
        Some(members[0].1)
    } else {
        member_among(members.drop_first(), name)
    }
}

/// The member of `node` named `name`, where `node` is an object that has one.
pub open spec fn member(node: Json, name: Seq<char>) -> Option<Json> {
    match node {
        Json::Object(members) => member_among(members@, name),
        _ => None,
    }
}

/// The value of the first of `members` named `name`.
pub fn find_member<'a>(members: &'a Vec<(Vec<char>, Json)>, name: &Vec<char>) -> (r: Option<
    &'a Json,
>)
    ensures
        match member_among(members@, name@) {
            Some(value) => r is Some && *(r->Some_0) == value,
            None => r is None,
        },
{
    let mut i: usize = 0;
    proof {
        assert(members@.skip(0) =~= members@);
    }
    while i < members.len()
        invariant
            i <= members.len(),
            member_among(members@, name@) == member_among(members@.skip(i as int), name@),
        decreases members.len() - i,
    {
        proof {
            assert(members@.skip(i as int)[0] == members@[i as int]);
            assert(members@.skip(i as int).drop_first() =~= members@.skip(i + 1));
        }
        if same_text(&members[i].0, name) {
            return Some(&members[i].1);
        }
        i += 1;
    }
    None
}

/// The member of `node` named `name`, where `node` is an object that has one.
pub fn get_member<'a>(node: &'a Json, name: &str) -> (r: Option<&'a Json>)
    ensures
        match member(*node, name@) {
            Some(value) => r is Some && *(r->Some_0) == value,
            None => r is None,
        },
{
    match node {
        Json::Object(members) => find_member(members, &chars_of(name)),
        _ => None,
    }
}

/// `text` with each `~` that is followed by `second` replaced, together with
/// that character, by `with`, from left to right.
pub open spec fn replaced(text: Seq<char>, second: char, with: char) -> Seq<char>
    decreases text.len(),
{
    if text.len() == 0 {
        text
    } else if text.len() >= 2 && text[0] == '~' && text[1] == second {
        seq![with] + replaced(text.skip(2), second, with)
    } else {
        seq![text[0]] + replaced(text.skip(1), second, with)
    }
}

/// A token of a JSON pointer as the name it stands for: `~1` read as `/`,
/// then `~0` as `~`.
pub open spec fn unescaped(token: Seq<char>) -> Seq<char> {
    replaced(replaced(token, '1', '/'), '0', '~')
}

/// `text` with each `~` that is followed by `second` replaced, together with
/// that character, by `with`.
pub fn replace(text: &Vec<char>, second: char, with: char) -> (r: Vec<char>)
    ensures
        r@ == replaced(text@, second, with),
{
    let mut out: Vec<char> = Vec::new();
    let mut i: usize = 0;
    proof {
        assert(text@.skip(0) =~= text@);
        assert(out@ + replaced(text@, second, with) =~= replaced(text@, second, with));
    }
    while i < text.len()
        invariant
            i <= text.len(),
            replaced(text@, second, with) == out@ + replaced(text@.skip(i as int), second, with),
        decreases text.len() - i,
    {
        let ghost rest = text@.skip(i as int);
        let ghost before = out@;
        if i + 1 < text.len() && text[i] == '~' && text[i + 1] == second {
            out.push(with);
            proof {
                assert(rest.skip(2) =~= text@.skip(i + 2));
                assert(before + (seq![with] + replaced(rest.skip(2), second, with)) =~= out@
                    + replaced(text@.skip(i + 2), second, with));
            }
            i += 2;
        } else {
            out.push(text[i]);
            proof {
                assert(rest.skip(1) =~= text@.skip(i + 1));
                assert(before + (seq![rest[0]] + replaced(rest.skip(1), second, with)) =~= out@
                    + replaced(text@.skip(i + 1), second, with));
            }
            i += 1;
        }
    }
    proof {
        assert(out@ + replaced(text@.skip(i as int), second, with) =~= out@);
    }
    out
}

/// The place in an array that `token` names, where the array has `count`
/// items: decimal digits, without a zero in front of others, that write a
/// number below `count`.
pub open spec fn index_named(token: Seq<char>, count: nat) -> Option<nat> {
    if token.len() > 0 && (forall|i: int| 0 <= i < token.len() ==> is_digit(#[trigger] token[i]))
        && (token[0] != '0' || token.len() == 1) && digits_value(token) < count {
        Some(digits_value(token))
    } else {
        None
    }
}

/// The place in an array of `count` items that `token` names.
pub fn index_of(token: &Vec<char>, count: usize) -> (r: Option<usize>)
    ensures
        match index_named(token@, count as nat) {
            Some(at) => r == Some(at as usize),
            None => r is None,
        },
{
    let n = token.len();
    if n == 0 || count == 0 {
        return None;
    }
    if token[0] == '0' && n != 1 {
        return None;
    }
    let mut value: usize = 0;
    let mut i: usize = 0;
    while i < n
        invariant
            i <= n,
            n == token@.len(),
            count > 0,
            forall|j: int| 0 <= j < i ==> is_digit(#[trigger] token@[j]),
            value == digits_value(token@.take(i as int)),
            i > 0 ==> value < count,
        decreases n - i,
    {
        let c = token[i];
        if c < '0' || c > '9' {
            return None;
        }
        proof {
            let upto = token@.take(i + 1);
            assert(upto.drop_last() =~= token@.take(i as int));
            assert(upto.last() == c);
            lemma_digits_value_grows(token@, i + 1);
        }
        let d = (c as u8 - 48) as usize;
        if value > count / 10 {
            return None;
        }
        if d > count - value * 10 {
            return None;
        }
        value = value * 10 + d;
        if value >= count {
            return None;
        }
        i += 1;
    }
    proof {
        assert(token@.take(n as int) =~= token@);
    }
    Some(value)
}

/// The part of `node` that `name` names: the member of an object, or the
/// item of an array at the place that `name` writes.
pub open spec fn part(node: Json, name: Seq<char>) -> Option<Json> {
    match node {
        Json::Object(members) => member_among(members@, name),
        Json::Array(items) => match index_named(name, items@.len()) {
            Some(at) => Some(items@[at as int]),
            None => None,
        },
        _ => None,
    }
}

/// The part of `node` that `name` names.
pub fn part_of<'a>(node: &'a Json, name: &Vec<char>) -> (r: Option<&'a Json>)
    ensures
        match part(*node, name@) {
            Some(value) => r is Some && *(r->Some_0) == value,
            None => r is None,
        },
{
    match node {
        Json::Object(members) => find_member(members, name),
        Json::Array(items) => match index_of(name, items.len()) {
            Some(at) => Some(&items[at]),
            None => None,
        },
        _ => None,
    }
}

/// How many characters stand in `text` before its first `/`.
pub open spec fn token_length(text: Seq<char>) -> nat
    decreases text.len(),
{
    if text.len() == 0 || text[0] == '/' {
        0
    } else {
        1 + token_length(text.skip(1))
    }
}

/// A token is no longer than the text it begins.
pub proof fn lemma_token_length_fits(text: Seq<char>)
    ensures
        token_length(text) <= text.len(),
    decreases text.len(),
{
    if text.len() > 0 && text[0] != '/' {
        lemma_token_length_fits(text.skip(1));
    }
}

/// Where the JSON pointer `pointer` leads from `node`: nowhere unless it is
/// empty or begins with `/`; else token by token into the parts that the
/// tokens name.
pub open spec fn pointed(node: Json, pointer: Seq<char>) -> Option<Json>
    decreases pointer.len(),
{
    if pointer.len() == 0 {
        Some(node)
    } else if pointer[0] != '/' {
        None
    } else {
        let rest = pointer.skip(1);
        let n = token_length(rest);
        if n > rest.len() {
            None
        } else {
            match part(node, unescaped(rest.take(n as int))) {
                None => None,
                Some(next) => pointed(next, rest.skip(n as int)),
            }
        }
    }
}

/// Where the JSON pointer `pointer` leads from `node`.
pub fn follow_pointer<'a>(node: &'a Json, pointer: &Vec<char>) -> (r: Option<&'a Json>)
    ensures
        match pointed(*node, pointer@) {
            Some(value) => r is Some && *(r->Some_0) == value,
            None => r is None,
        },
{
    let mut at: &'a Json = node;
    let mut i: usize = 0;
    proof {
        assert(pointer@.skip(0) =~= pointer@);
    }
    while i < pointer.len()
        invariant
            i <= pointer.len(),
            pointed(*node, pointer@) == pointed(*at, pointer@.skip(i as int)),
        decreases pointer.len() - i,
    {
        let ghost here = pointer@.skip(i as int);
        if pointer[i] != '/' {
            return None;
        }
        let ghost rest = here.skip(1);
        proof {
            assert(rest =~= pointer@.skip(i + 1));
            lemma_token_length_fits(rest);
        }
        let mut token: Vec<char> = Vec::new();
        let mut j: usize = i + 1;
        while j < pointer.len() && pointer[j] != '/'
            invariant
                i + 1 <= j <= pointer.len(),
                rest == pointer@.skip(i + 1),
                token@ == rest.take(j - (i + 1)),
                token_length(rest) == (j - (i + 1)) + token_length(pointer@.skip(j as int)),
            decreases pointer.len() - j,
        {
            token.push(pointer[j]);
            proof {
                assert(rest.take(j + 1 - (i + 1)) =~= rest.take(j - (i + 1)).push(
                    pointer@[j as int],
                ));
                assert(pointer@.skip(j as int).skip(1) =~= pointer@.skip(j + 1));
            }
            j += 1;
        }
        proof {
            assert(token_length(rest) == j - (i + 1));
            assert(rest.skip(j - (i + 1)) =~= pointer@.skip(j as int));
        }
        let name = replace(&replace(&token, '1', '/'), '0', '~');
        match part_of(at, &name) {
            None => {
                return None;
            },
            Some(next) => {
                at = next;
            },
        }
        i = j;
    }
    Some(at)
}

/// Whether `c` is a character that a reference is read through without
/// change: none at or below the space, and not `%`.
pub open spec fn is_plain_char(c: char) -> bool {
    c > ' ' && c != '%'
}

/// The JSON pointer that `reference` holds, where the reference leads into
/// the document it stands in and is written plainly: `#` and the pointer,
/// without a character that would have to be decoded first.
pub open spec fn fragment(reference: Seq<char>) -> Option<Seq<char>> {
    if reference.len() > 0 && reference[0] == '#' && (forall|i: int|
        0 <= i < reference.len() ==> is_plain_char(#[trigger] reference[i])) {
        Some(reference.skip(1))
    } else {
        None
    }
}

/// The JSON pointer that `reference` holds, where it is written plainly.
pub fn fragment_of(reference: &Vec<char>) -> (r: Option<Vec<char>>)
    ensures
        match fragment(reference@) {
            Some(pointer) => r is Some && r->Some_0@ == pointer,
            None => r is None,
        },
{
    if reference.len() == 0 || reference[0] != '#' {
        return None;
    }
    let mut out: Vec<char> = Vec::new();
    let mut i: usize = 0;
    while i < reference.len()
        invariant
            i <= reference.len(),
            reference.len() > 0,
            forall|j: int| 0 <= j < i ==> is_plain_char(#[trigger] reference@[j]),
            out@ == if i == 0 {
                Seq::<char>::empty()
            } else {
                reference@.subrange(1, i as int)
            },
        decreases reference.len() - i,
    {
        let c = reference[i];
        if c <= ' ' || c == '%' {
            return None;
        }
        if i > 0 {
            out.push(c);
        }
        proof {
            assert(reference@.subrange(1, i + 1) =~= if i == 0 {
                Seq::<char>::empty()
            } else {
                reference@.subrange(1, i as int).push(c)
            });
        }
        i += 1;
    }
    proof {
        assert(reference@.subrange(1, reference.len() as int) =~= reference@.skip(1));
    }
    Some(out)
}

/// What a node can be looked at for.
#[derive(Clone, Copy, Debug, PartialEq, Eq, Structural)]
pub enum Mark {
    /// An object that makes a reference: its member `$ref` is a text.
    Reference,
    /// An object whose reference is not written plainly.
    Unclear,
    /// An object that names itself: its member `$id` is a text.
    Named,
}

/// The text of the member `name` of `node`.
pub open spec fn text_member(node: Json, name: Seq<char>) -> Option<Seq<char>> {
    match member(node, name) {
        Some(Json::Text(text)) => Some(text@),
        _ => None,
    }
}

/// Whether `node` itself bears `mark`.
pub open spec fn bears(node: Json, mark: Mark) -> bool {
    match mark {
        Mark::Reference => text_member(node, "$ref"@) is Some,
        Mark::Unclear => text_member(node, "$ref"@) is Some && fragment(
            text_member(node, "$ref"@)->Some_0,
        ) is None,
        Mark::Named => text_member(node, "$id"@) is Some,
    }
}

/// Whether `node`, or anything below it, bears `mark`.
pub open spec fn holds(node: Json, mark: Mark) -> bool
    decreases node,
{
    bears(node, mark) || match node {
        Json::Array(items) => exists|i: int|
            0 <= i < items@.len() && holds(#[trigger] items@[i], mark),
        Json::Object(members) => exists|i: int|
            0 <= i < members@.len() && holds((#[trigger] members@[i]).1, mark),
        _ => false,
    }
}

/// The text of the member `name` of `node`.
pub fn text_of<'a>(node: &'a Json, name: &str) -> (r: Option<&'a Vec<char>>)
    ensures
        match text_member(*node, name@) {
            Some(text) => r is Some && r->Some_0@ == text,
            None => r is None,
        },
{
    match get_member(node, name) {
        Some(Json::Text(text)) => Some(text),
        _ => None,
    }
}

/// Whether `node` itself bears `mark`.
pub fn has_mark(node: &Json, mark: Mark) -> (r: bool)
    ensures
        r == bears(*node, mark),
{
    match mark {
        Mark::Reference => text_of(node, "$ref").is_some(),
        Mark::Unclear => match text_of(node, "$ref") {
            Some(reference) => fragment_of(reference).is_none(),
            None => false,
        },
        Mark::Named => text_of(node, "$id").is_some(),
    }
}

/// Whether `node`, or anything below it, bears `mark`.
pub fn finds(node: &Json, mark: Mark) -> (r: bool)
    ensures
        r == holds(*node, mark),
    decreases *node,
{
    if has_mark(node, mark) {
        return true;
    }
    match node {
        Json::Array(items) => {
            let mut i: usize = 0;
            while i < items.len()
                invariant
                    i <= items.len(),
                    *node == Json::Array(*items),
                    decreases_to!(*node => *items),
                    !bears(*node, mark),
                    forall|j: int| 0 <= j < i ==> !holds(#[trigger] items@[j], mark),
                decreases items.len() - i,
            {
                proof {
                    axiom_vec_index_decreases(*items, i as int);
                }
                if finds(&items[i], mark) {
                    assert(holds(node->Array_0@[i as int], mark));
                    return true;
                }
                i += 1;
            }
            false
        },
        Json::Object(members) => {
            let mut i: usize = 0;
            while i < members.len()
                invariant
                    i <= members.len(),
                    *node == Json::Object(*members),
                    decreases_to!(*node => *members),
                    !bears(*node, mark),
                    forall|j: int| 0 <= j < i ==> !holds((#[trigger] members@[j]).1, mark),
                decreases members.len() - i,
            {
                proof {
                    axiom_vec_index_decreases(*members, i as int);
                }
                if finds(&members[i].1, mark) {
                    assert(holds(node->Object_0@[i as int].1, mark));
                    return true;
                }
                i += 1;
            }
            false
        },
        _ => false,
    }
}

/// The items of `value`, where it is an array.
pub open spec fn items_of(value: Option<Json>) -> Seq<Json> {
    match value {
        Some(Json::Array(items)) => items@,
        _ => Seq::empty(),
    }
}

/// `value` alone, where there is one.
pub open spec fn one(value: Option<Json>) -> Seq<Json> {
    match value {
        Some(v) => seq![v],
        None => Seq::empty(),
    }
}

/// The values of `members` that are no arrays, in order.
pub open spec fn schemas_among(members: Seq<(Vec<char>, Json)>) -> Seq<Json>
    decreases members.len(),
{
    if members.len() == 0 {
        Seq::empty()
    } else if members.last().1 is Array {
        schemas_among(members.drop_last())
    } else {
        schemas_among(members.drop_last()).push(members.last().1)
    }
}

/// The schemas among the dependencies that `value` holds.
pub open spec fn dependency_schemas(value: Option<Json>) -> Seq<Json> {
    match value {
        Some(Json::Object(members)) => schemas_among(members@),
        _ => Seq::empty(),
    }
}

/// The schemas that a reading is held against next, without a step into the
/// reading, once it is held against the schema `node` of the document
/// `root`. A schema that makes a reference has the reference's target and
/// nothing else; any other has what stands under `allOf`, `anyOf`, `oneOf`,
/// `not`, `if` with its `then` and `else`, and the schemas under
/// `dependencies`.
pub open spec fn next_schemas(root: Json, node: Json) -> Seq<Json> {
    if member(node, "$ref"@) is Some {
        match text_member(node, "$ref"@) {
            Some(reference) => match fragment(reference) {
                Some(pointer) => one(pointed(root, pointer)),
                None => Seq::empty(),
            },
            None => Seq::empty(),
        }
    } else {
        items_of(member(node, "allOf"@)) + items_of(member(node, "anyOf"@)) + items_of(
            member(node, "oneOf"@),
        ) + one(member(node, "not"@)) + (if member(node, "if"@) is Some {
            one(member(node, "if"@)) + one(member(node, "then"@)) + one(member(node, "else"@))
        } else {
            Seq::empty()
        }) + dependency_schemas(member(node, "dependencies"@))
    }
}

/// The values that a list of borrowed values stands for.
pub open spec fn values(list: Seq<&Json>) -> Seq<Json> {
    list.map_values(|v: &Json| *v)
}

/// The value that a borrowed value stands for, if there is one.
pub open spec fn value_of(found: Option<&Json>) -> Option<Json> {
    match found {
        Some(v) => Some(*v),
        None => None,
    }
}

/// Adds the items of `value` to `out`, where it is an array.
fn add_items<'a>(out: &mut Vec<&'a Json>, value: Option<&'a Json>)
    ensures
        values(final(out)@) == values(old(out)@) + items_of(value_of(value)),
{
    let ghost before = values(out@);
    match value {
        Some(Json::Array(items)) => {
            let mut i: usize = 0;
            proof {
                assert(before + items@.take(0) =~= before);
            }
            while i < items.len()
                invariant
                    i <= items.len(),
                    values(out@) == before + items@.take(i as int),
                decreases items.len() - i,
            {
                let ghost old_out = out@;
                out.push(&items[i]);
                proof {
                    assert(values(out@) =~= values(old_out).push(items@[i as int]));
                    assert(before + items@.take(i + 1) =~= (before + items@.take(i as int)).push(
                        items@[i as int],
                    ));
                }
                i += 1;
            }
            proof {
                assert(items@.take(items.len() as int) =~= items@);
            }
        },
        _ => {
            proof {
                assert(before + Seq::<Json>::empty() =~= before);
            }
        },
    }
}

/// Adds `value` to `out`, where there is one.
fn add_one<'a>(out: &mut Vec<&'a Json>, value: Option<&'a Json>)
    ensures
        values(final(out)@) == values(old(out)@) + one(value_of(value)),
{
    let ghost before = out@;
    match value {
        Some(v) => {
            out.push(v);
            proof {
                assert(values(out@) =~= values(before) + seq![*v]);
            }
        },
        None => {
            proof {
                assert(values(before) + Seq::<Json>::empty() =~= values(before));
            }
        },
    }
}

/// Adds the schemas among the dependencies that `value` holds to `out`.
fn add_dependencies<'a>(out: &mut Vec<&'a Json>, value: Option<&'a Json>)
    ensures
        values(final(out)@) == values(old(out)@) + dependency_schemas(value_of(value)),
{
    let ghost before = values(out@);
    match value {
        Some(Json::Object(members)) => {
            let mut i: usize = 0;
            proof {
                assert(members@.take(0) =~= Seq::<(Vec<char>, Json)>::empty());
                assert(before + schemas_among(members@.take(0)) =~= before);
            }
            while i < members.len()
                invariant
                    i <= members.len(),
                    values(out@) == before + schemas_among(members@.take(i as int)),
                decreases members.len() - i,
            {
                let ghost old_out = out@;
                proof {
                    let upto = members@.take(i + 1);
                    assert(upto.drop_last() =~= members@.take(i as int));
                    assert(upto.last() == members@[i as int]);
                }
                match &members[i].1 {
                    Json::Array(_) => {},
                    schema => {
                        out.push(schema);
                        proof {
                            assert(values(out@) =~= values(old_out).push(members@[i as int].1));
                            assert(before + schemas_among(members@.take(i as int)).push(
                                members@[i as int].1,
                            ) =~= (before + schemas_among(members@.take(i as int))).push(
                                members@[i as int].1,
                            ));
                        }
                    },
                }
                i += 1;
            }
            proof {
                assert(members@.take(members.len() as int) =~= members@);
            }
        },
        _ => {
            proof {
                assert(before + Seq::<Json>::empty() =~= before);
            }
        },
    }
}

/// The schemas that a reading is held against next, once it is held against
/// the schema `node` of the document `root`.
pub fn next_of<'a>(root: &'a Json, node: &'a Json) -> (r: Vec<&'a Json>)
    ensures
        values(r@) == next_schemas(*root, *node),
{
    let mut out: Vec<&'a Json> = Vec::new();
    proof {
        assert(values(out@) =~= Seq::<Json>::empty());
    }
    if get_member(node, "$ref").is_some() {
        match text_of(node, "$ref") {
            Some(reference) => match fragment_of(reference) {
                Some(pointer) => {
                    add_one(&mut out, follow_pointer(root, &pointer));
                    proof {
                        assert(Seq::<Json>::empty() + one(pointed(*root, pointer@)) =~= one(
                            pointed(*root, pointer@),
                        ));
                    }
                },
                None => {},
            },
            None => {},
        }
    } else {
        add_items(&mut out, get_member(node, "allOf"));
        add_items(&mut out, get_member(node, "anyOf"));
        add_items(&mut out, get_member(node, "oneOf"));
        add_one(&mut out, get_member(node, "not"));
        let ghost so_far = values(out@);
        if get_member(node, "if").is_some() {
            add_one(&mut out, get_member(node, "if"));
            add_one(&mut out, get_member(node, "then"));
            add_one(&mut out, get_member(node, "else"));
            proof {
                assert(values(out@) =~= so_far + (one(member(*node, "if"@)) + one(
                    member(*node, "then"@),
                ) + one(member(*node, "else"@))));
            }
        } else {
            proof {
                assert(values(out@) =~= so_far + Seq::<Json>::empty());
            }
        }
        add_dependencies(&mut out, get_member(node, "dependencies"));
        proof {
            assert(Seq::<Json>::empty() + items_of(member(*node, "allOf"@)) =~= items_of(
                member(*node, "allOf"@),
            ));
        }
    }
    out
}

/// Whether every chain of schemas that begins at `node`, each the next of
/// the one before, ends after at most `fuel` of them.
pub open spec fn chain_ends(root: Json, node: Json, fuel: nat) -> bool
    decreases fuel,
{
    forall|i: int|
        0 <= i < next_schemas(root, node).len() ==> (0 < fuel && chain_ends(
            root,
            #[trigger] next_schemas(root, node)[i],
            (fuel - 1) as nat,
        ))
}

/// Whether every chain that begins at `node` ends after at most `fuel`
/// schemas.
pub fn ends(root: &Json, node: &Json, fuel: usize) -> (r: bool)
    ensures
        r == chain_ends(*root, *node, fuel as nat),
    decreases fuel,
{
    let next = next_of(root, node);
    let ghost path = next_schemas(*root, *node);
    let mut i: usize = 0;
    proof {
        assert(values(next@).len() == next@.len());
    }
    while i < next.len()
        invariant
            i <= next.len(),
            path == next_schemas(*root, *node),
            values(next@) == path,
            next@.len() == path.len(),
            forall|j: int|
                0 <= j < i ==> (0 < fuel && chain_ends(
                    *root,
                    #[trigger] path[j],
                    (fuel - 1) as nat,
                )),
        decreases next.len() - i,
    {
        assert(values(next@)[i as int] == *next@[i as int]);
        if fuel == 0 {
            assert(!(0 < fuel && chain_ends(*root, path[i as int], (fuel - 1) as nat)));
            return false;
        }
        if !ends(root, next[i], fuel - 1) {
            assert(!(0 < fuel && chain_ends(*root, path[i as int], (fuel - 1) as nat)));
            return false;
        }
        i += 1;
    }
    proof {
        assert(i == path.len());
        assert(path.len() > 0 ==> chain_ends(*root, path[0], (fuel - 1) as nat));
        assert(path.len() > 0 ==> 0 < fuel);
        assert forall|j: int| 0 <= j < path.len() implies (0 < fuel as nat && chain_ends(
            *root,
            #[trigger] path[j],
            (fuel as nat - 1) as nat,
        )) by {
            assert(0 < fuel && chain_ends(*root, path[j], (fuel - 1) as nat));
        }
    }
    true
}

/// Whether every chain that begins at `node`, or at anything below it, ends
/// after at most `fuel` schemas.
pub open spec fn all_chains_end(root: Json, node: Json, fuel: nat) -> bool
    decreases node,
{
    chain_ends(root, node, fuel) && match node {
        Json::Array(items) => forall|i: int|
            0 <= i < items@.len() ==> all_chains_end(root, #[trigger] items@[i], fuel),
        Json::Object(members) => forall|i: int|
            0 <= i < members@.len() ==> all_chains_end(root, (#[trigger] members@[i]).1, fuel),
        _ => true,
    }
}

/// Whether every chain that begins at `node`, or at anything below it, ends
/// after at most `fuel` schemas.
pub fn all_end(root: &Json, node: &Json, fuel: usize) -> (r: bool)
    ensures
        r == all_chains_end(*root, *node, fuel as nat),
    decreases *node,
{
    if !ends(root, node, fuel) {
        return false;
    }
    match node {
        Json::Array(items) => {
            let mut i: usize = 0;
            while i < items.len()
                invariant
                    i <= items.len(),
                    *node == Json::Array(*items),
                    decreases_to!(*node => *items),
                    chain_ends(*root, *node, fuel as nat),
                    forall|j: int|
                        0 <= j < i ==> all_chains_end(*root, #[trigger] items@[j], fuel as nat),
                decreases items.len() - i,
            {
                proof {
                    axiom_vec_index_decreases(*items, i as int);
                }
                if !all_end(root, &items[i], fuel) {
                    assert(!all_chains_end(*root, node->Array_0@[i as int], fuel as nat));
                    return false;
                }
                i += 1;
            }
            true
        },
        Json::Object(members) => {
            let mut i: usize = 0;
            while i < members.len()
                invariant
                    i <= members.len(),
                    *node == Json::Object(*members),
                    decreases_to!(*node => *members),
                    chain_ends(*root, *node, fuel as nat),
                    forall|j: int|
                        0 <= j < i ==> all_chains_end(
                            *root,
                            (#[trigger] members@[j]).1,
                            fuel as nat,
                        ),
                decreases members.len() - i,
            {
                proof {
                    axiom_vec_index_decreases(*members, i as int);
                }
                if !all_end(root, &members[i].1, fuel) {
                    assert(!all_chains_end(*root, node->Object_0@[i as int].1, fuel as nat));
                    return false;
                }
                i += 1;
            }
            true
        },
        _ => true,
    }
}

/// How many parts `node` has: the items of an array, the members of an
/// object.
pub open spec fn width(node: Json) -> nat {
    match node {
        Json::Array(items) => items@.len(),
        Json::Object(members) => members@.len(),
        _ => 0,
    }
}

/// How many objects there are in `node`, itself counted.
pub open spec fn objects_in(node: Json) -> nat
    decreases node, 1nat, 0nat,
{
    objects_beyond(node, 0) + if node is Object {
        1nat
    } else {
        0nat
    }
}

/// How many objects there are in the parts of `node` from the part `from`
/// on.
pub open spec fn objects_beyond(node: Json, from: nat) -> nat
    decreases node, 0nat, width(node) - from,
{
    match node {
        Json::Array(items) => if from < items@.len() {
            objects_in(items@[from as int]) + objects_beyond(node, from + 1)
        } else {
            0
        },
        Json::Object(members) => if from < members@.len() {
            objects_in(members@[from as int].1) + objects_beyond(node, from + 1)
        } else {
            0
        },
        _ => 0,
    }
}

/// `n`, or the greatest number that the machine counts to where `n` is
/// beyond it.
pub open spec fn capped(n: nat) -> nat {
    if n > usize::MAX {
        usize::MAX as nat
    } else {
        n
    }
}

/// How many schemas can follow one another in the document `root` at most
/// where every chain ends: no chain that ends passes an object twice, so
/// none is longer than the document has objects.
pub open spec fn longest_chain(root: Json) -> nat {
    capped(objects_in(root))
}

/// The sum of two counts, capped.
fn add_capped(a: usize, b: usize) -> (r: usize)
    ensures
        r == capped(a as nat + b as nat),
{
    if b > usize::MAX - a {
        usize::MAX
    } else {
        a + b
    }
}

/// How many objects there are in `node`, itself counted.
pub fn count_objects(node: &Json) -> (r: usize)
    ensures
        r == capped(objects_in(*node)),
    decreases *node,
{
    let own: usize = match node {
        Json::Object(_) => 1,
        _ => 0,
    };
    let mut below: usize = 0;
    let ghost mut seen: nat = 0;
    match node {
        Json::Array(items) => {
            let mut i: usize = 0;
            while i < items.len()
                invariant
                    i <= items.len(),
                    *node == Json::Array(*items),
                    decreases_to!(*node => *items),
                    objects_beyond(*node, 0) == seen + objects_beyond(*node, i as nat),
                    below == capped(seen),
                decreases items.len() - i,
            {
                proof {
                    axiom_vec_index_decreases(*items, i as int);
                    assert(node->Array_0@[i as int] == items@[i as int]);
                }
                let part = count_objects(&items[i]);
                below = add_capped(below, part);
                proof {
                    seen = seen + objects_in(items@[i as int]);
                }
                i += 1;
            }
        },
        Json::Object(members) => {
            let mut i: usize = 0;
            while i < members.len()
                invariant
                    i <= members.len(),
                    *node == Json::Object(*members),
                    decreases_to!(*node => *members),
                    objects_beyond(*node, 0) == seen + objects_beyond(*node, i as nat),
                    below == capped(seen),
                decreases members.len() - i,
            {
                proof {
                    axiom_vec_index_decreases(*members, i as int);
                    assert(node->Object_0@[i as int] == members@[i as int]);
                }
                let part = count_objects(&members[i].1);
                below = add_capped(below, part);
                proof {
                    seen = seen + objects_in(members@[i as int].1);
                }
                i += 1;
            }
        },
        _ => {},
    }
    add_capped(below, own)
}

/// Whether the document `root` names its parts in a way that leaves no
/// doubt where a plain reference leads: no object below the root names
/// itself by `$id`, and the root's own `$id`, if it has one, holds no `#`.
pub open spec fn ids_are_clear(root: Json) -> bool {
    &&& match text_member(root, "$id"@) {
        Some(id) => !id.contains('#'),
        None => true,
    }
    &&& match root {
        Json::Array(items) => forall|i: int|
            0 <= i < items@.len() ==> !holds(#[trigger] items@[i], Mark::Named),
        Json::Object(members) => forall|i: int|
            0 <= i < members@.len() ==> !holds((#[trigger] members@[i]).1, Mark::Named),
        _ => true,
    }
}

/// Whether `text` holds the character `c`.
pub fn holds_char(text: &Vec<char>, c: char) -> (r: bool)
    ensures
        r == text@.contains(c),
{
    let mut i: usize = 0;
    while i < text.len()
        invariant
            i <= text.len(),
            forall|j: int| 0 <= j < i ==> text@[j] != c,
        decreases text.len() - i,
    {
        if text[i] == c {
            return true;
        }
        i += 1;
    }
    false
}

/// Whether the document `root` names its parts in a way that leaves no
/// doubt where a plain reference leads.
pub fn check_ids(root: &Json) -> (r: bool)
    ensures
        r == ids_are_clear(*root),
{
    match text_of(root, "$id") {
        Some(id) => {
            if holds_char(id, '#') {
                return false;
            }
        },
        None => {},
    }
    match root {
        Json::Array(items) => {
            let mut i: usize = 0;
            while i < items.len()
                invariant
                    i <= items.len(),
                    *root == Json::Array(*items),
                    forall|j: int| 0 <= j < i ==> !holds(#[trigger] items@[j], Mark::Named),
                decreases items.len() - i,
            {
                if finds(&items[i], Mark::Named) {
                    assert(holds(root->Array_0@[i as int], Mark::Named));
                    return false;
                }
                i += 1;
            }
            true
        },
        Json::Object(members) => {
            let mut i: usize = 0;
            while i < members.len()
                invariant
                    i <= members.len(),
                    *root == Json::Object(*members),
                    forall|j: int|
                        0 <= j < i ==> !holds((#[trigger] members@[j]).1, Mark::Named),
                decreases members.len() - i,
            {
                if finds(&members[i].1, Mark::Named) {
                    assert(holds(root->Object_0@[i as int].1, Mark::Named));
                    return false;
                }
                i += 1;
            }
            true
        },
        _ => true,
    }
}

/// Whether the references of the document `root` can be followed to an end.
///
/// Every reference is written plainly, so that where it leads is beyond
/// doubt, and so are the names that the document gives its parts, if it makes
/// a reference at all. And no chain of schemas, each the next of the one
/// before without a step into the reading, goes on for ever, wherever in the
/// document it begins.
pub open spec fn references_settle(root: Json) -> bool {
    &&& !holds(root, Mark::Unclear)
    &&& holds(root, Mark::Reference) ==> ids_are_clear(root)
    &&& all_chains_end(root, root, longest_chain(root))
}

/// Whether the references of the document `root` can be followed to an end.
pub fn check_references(root: &Json) -> (r: bool)
    ensures
        r == references_settle(*root),
{
    if finds(root, Mark::Unclear) {
        return false;
    }
    if finds(root, Mark::Reference) && !check_ids(root) {
        return false;
    }
    all_end(root, root, count_objects(root))
}



} // verus!
