//! Reading what the language model answers: finding the JSON object in its
//! reply, and holding every field against the closed vocabulary.

use crate::json::{json_parse_of, parse_json, parsed_model, JsonModel, JsonValue};
use crate::text::{
    chars_of, eq_ignoring_ascii_case, lower_case, opt_text, prefix, push_char, push_text,
    same_ignoring_ascii_case, string_of_range, text_eq, texts, to_lower_case, trim, trimmed,
};
use vstd::prelude::*;
use vstd::string::*;

verus! {

/// The most characters of a summary.
pub const SUMMARY_MAX_LEN: usize = 320;

pub open spec fn opt_str(o: Option<&str>) -> Option<Seq<char>> {
    match o {
        Some(s) => Some(s@),
        None => None,
    }
}

pub open spec fn opt_model(o: Option<&JsonValue>) -> Option<JsonModel> {
    match o {
        Some(v) => Some(v.model()),
        None => None,
    }
}

/// A text held within `max_len`: a text of no more bytes is trimmed; a
/// longer one is cut to one character less than `max_len` and ends in an
/// ellipsis.
pub open spec fn clip_text_of(s: Seq<char>, max_len: usize) -> Seq<char> {
    if vstd::utf8::encode_utf8(s).len() <= max_len {
        trim(s)
    } else {
        prefix(s, max_len - 1).push('…')
    }
}

pub fn clip_text(input: &str, max_len: usize) -> (r: String)
    ensures
        r@ == clip_text_of(input@, max_len),
{
    if input.as_bytes().len() <= max_len {
        return trimmed(input);
    }
    let chars = chars_of(input);
    let keep: usize = if max_len == 0 {
        0
    } else {
        max_len - 1
    };
    let mut out = if keep >= chars.len() {
        string_of_range(&chars, 0, chars.len())
    } else {
        string_of_range(&chars, 0, keep)
    };
    proof {
        assert(chars@.subrange(0, chars@.len() as int) =~= chars@);
        if keep < chars.len() {
            assert(chars@.subrange(0, keep as int) =~= prefix(chars@, max_len - 1));
        }
    }
    push_char(&mut out, '…');
    out
}

/// The allowed value that a lower-cased candidate stands for: the first
/// whose lower-case form is the candidate.
pub open spec fn first_match(allowed: Seq<Seq<char>>, lowered: Seq<char>) -> Option<Seq<char>>
    decreases allowed.len(),
{
    if allowed.len() == 0 {
        None
    } else if lower_case(allowed[0]) == lowered {
        Some(allowed[0])
    } else {
        first_match(allowed.skip(1), lowered)
    }
}

/// The value of a closed vocabulary that a reply names: the reply is
/// trimmed and held against the allowed values without regard to case; a
/// missing or blank reply names none.
pub open spec fn enum_value_of(value: Option<Seq<char>>, allowed: Seq<Seq<char>>) -> Option<
    Seq<char>,
> {
    match value {
        Some(v) => if trim(v).len() == 0 {
            None
        } else {
            first_match(allowed, lower_case(trim(v)))
        },
        None => None,
    }
}

/// The place of the first text of a list that equals `item`.
pub fn first_equal(list: &Vec<String>, item: &str) -> (r: Option<usize>)
    ensures
        match r {
            Some(i) => i < list.len() && list@[i as int]@ == item@ && forall|k: int|
                0 <= k < i ==> list@[k]@ != item@,
            None => forall|k: int| 0 <= k < list.len() ==> list@[k]@ != item@,
        },
{
    let mut i: usize = 0;
    while i < list.len()
        invariant
            i <= list.len(),
            forall|k: int| 0 <= k < i ==> list@[k]@ != item@,
        decreases list.len() - i,
    {
        if text_eq(list[i].as_str(), item) {
            return Some(i);
        }
        i += 1;
    }
    None
}

proof fn lemma_first_match_at(allowed: Seq<Seq<char>>, lowered: Seq<char>, at: int)
    requires
        0 <= at <= allowed.len(),
        forall|k: int| 0 <= k < at ==> lower_case(allowed[k]) != lowered,
    ensures
        first_match(allowed, lowered) == first_match(allowed.skip(at), lowered),
    decreases at,
{
    if at > 0 {
        lemma_first_match_at(allowed, lowered, at - 1);
        assert(allowed.skip(at - 1)[0] == allowed[at - 1]);
        assert(allowed.skip(at - 1).skip(1) =~= allowed.skip(at));
    } else {
        assert(allowed.skip(0) =~= allowed);
    }
}

pub fn sanitize_enum_value(value: Option<&str>, allowed: &Vec<String>) -> (r: Option<String>)
    ensures
        opt_text(r) == enum_value_of(opt_str(value), texts(allowed@)),
{
    match value {
        None => None,
        Some(v) => {
            let candidate = trimmed(v);
            if candidate.as_str().unicode_len() == 0 {
                return None;
            }
            let lower = to_lower_case(candidate.as_str());
            let mut lowered: Vec<String> = Vec::new();
            let mut i: usize = 0;
            while i < allowed.len()
                invariant
                    i <= allowed.len(),
                    lowered.len() == i,
                    forall|k: int| 0 <= k < i ==> lowered@[k]@ == lower_case(allowed@[k]@),
                decreases allowed.len() - i,
            {
                lowered.push(to_lower_case(allowed[i].as_str()));
                i += 1;
            }
            let ghost all = texts(allowed@);
            match first_equal(&lowered, lower.as_str()) {
                Some(at) => {
                    proof {
                        assert forall|k: int| 0 <= k < at implies lower_case(all[k]) != lower@ by {
                            assert(lowered@[k]@ == lower_case(allowed@[k]@));
                        }
                        lemma_first_match_at(all, lower@, at as int);
                        assert(all.skip(at as int)[0] == allowed@[at as int]@);
                    }
                    Some(allowed[at].clone())
                },
                None => {
                    proof {
                        assert forall|k: int| 0 <= k < all.len() implies lower_case(all[k])
                            != lower@ by {
                            assert(lowered@[k]@ == lower_case(allowed@[k]@));
                        }
                        lemma_first_match_at(all, lower@, all.len() as int);
                        assert(all.skip(all.len() as int).len() == 0);
                    }
                    None
                },
            }
        },
    }
}

/// The sentiment that a lower-cased reply names.
pub open spec fn sentiment_label(lowered: Seq<char>) -> Option<Seq<char>> {
    if lowered == "positive"@ || lowered == "pos"@ {
        Some("positive"@)
    } else if lowered == "negative"@ || lowered == "neg"@ {
        Some("negative"@)
    } else if lowered == "neutral"@ {
        Some("neutral"@)
    } else if lowered == "unknown"@ || lowered == "mixed"@ {
        Some("unknown"@)
    } else {
        None
    }
}

/// The sentiment of a reply: the reply is trimmed and put in lower case; a
/// missing or blank reply has none.
pub open spec fn sentiment_of(value: Option<Seq<char>>) -> Option<Seq<char>> {
    match value {
        Some(v) => if trim(v).len() == 0 {
            None
        } else {
            sentiment_label(lower_case(trim(v)))
        },
        None => None,
    }
}

/// The sentiment that a reply names, given the reply in lower case.
pub fn sentiment_from_lowered(lowered: &str) -> (r: Option<String>)
    ensures
        opt_text(r) == sentiment_label(lowered@),
{
    if text_eq(lowered, "positive") || text_eq(lowered, "pos") {
        Some("positive".to_owned())
    } else if text_eq(lowered, "negative") || text_eq(lowered, "neg") {
        Some("negative".to_owned())
    } else if text_eq(lowered, "neutral") {
        Some("neutral".to_owned())
    } else if text_eq(lowered, "unknown") || text_eq(lowered, "mixed") {
        Some("unknown".to_owned())
    } else {
        None
    }
}

pub fn sanitize_sentiment(value: Option<&str>) -> (r: Option<String>)
    ensures
        opt_text(r) == sentiment_of(opt_str(value)),
{
    match value {
        None => None,
        Some(v) => {
            let candidate = trimmed(v);
            if candidate.as_str().unicode_len() == 0 {
                return None;
            }
            let lower = to_lower_case(candidate.as_str());
            sentiment_from_lowered(lower.as_str())
        },
    }
}

/// `positive` and `pos` name the positive sentiment, and a reply outside
/// the eight known words names none.
pub proof fn lemma_sentiment_labels(lowered: Seq<char>)
    ensures
        sentiment_label("positive"@) == Some("positive"@),
        sentiment_label("pos"@) == Some("positive"@),
        lowered != "positive"@ && lowered != "pos"@ && lowered != "negative"@ && lowered != "neg"@
            && lowered != "neutral"@ && lowered != "unknown"@ && lowered != "mixed"@
            ==> sentiment_label(lowered) is None,
        sentiment_label(lowered) is Some ==> sentiment_label(lowered)->0 == "positive"@
            || sentiment_label(lowered)->0 == "negative"@ || sentiment_label(lowered)->0
            == "neutral"@ || sentiment_label(lowered)->0 == "unknown"@,
{
}

/// The text of a JSON value: a string trimmed, unless it is blank; a number
/// as it is printed; a boolean as `true` or `false`; none for anything else.
pub open spec fn text_of(value: Option<JsonModel>) -> Option<Seq<char>> {
    match value {
        Some(JsonModel::Text(t)) => if trim(t).len() == 0 {
            None
        } else {
            Some(trim(t))
        },
        Some(JsonModel::Number(n)) => Some(n),
        Some(JsonModel::Bool(b)) => Some(
            if b {
                "true"@
            } else {
                "false"@
            },
        ),
        _ => None,
    }
}

pub fn value_to_string(value: Option<&JsonValue>) -> (r: Option<String>)
    ensures
        opt_text(r) == text_of(opt_model(value)),
{
    match value {
        Some(JsonValue::Text(text)) => {
            let t = trimmed(text.as_str());
            if t.as_str().unicode_len() == 0 {
                None
            } else {
                Some(t)
            }
        },
        Some(JsonValue::Number(number)) => Some(number.clone()),
        Some(JsonValue::Bool(flag)) => Some(
            if *flag {
                "true".to_owned()
            } else {
                "false".to_owned()
            },
        ),
        _ => None,
    }
}

/// The parts of `s` between the separators, from position `i` on, where
/// `cur` holds the characters of the part that is being read.
pub open spec fn parts_from(s: Seq<char>, sep: char, i: int, cur: Seq<char>) -> Seq<Seq<char>>
    decreases s.len() - i,
{
    if i >= s.len() {
        seq![cur]
    } else if s[i] == sep {
        seq![cur] + parts_from(s, sep, i + 1, Seq::empty())
    } else {
        parts_from(s, sep, i + 1, cur.push(s[i]))
    }
}

/// The parts of `s` between the separators; one more than there are
/// separators.
pub open spec fn parts(s: Seq<char>, sep: char) -> Seq<Seq<char>> {
    parts_from(s, sep, 0, Seq::empty())
}

/// The texts trimmed, without those that are blank.
pub open spec fn trimmed_non_blank(list: Seq<Seq<char>>) -> Seq<Seq<char>>
    decreases list.len(),
{
    if list.len() == 0 {
        Seq::empty()
    } else if trim(list.last()).len() == 0 {
        trimmed_non_blank(list.drop_last())
    } else {
        trimmed_non_blank(list.drop_last()).push(trim(list.last()))
    }
}

/// The texts of the elements of an array that have one.
pub open spec fn item_texts(items: Seq<JsonModel>) -> Seq<Seq<char>>
    decreases items.len(),
{
    if items.len() == 0 {
        Seq::empty()
    } else {
        match text_of(Some(items.last())) {
            Some(t) => item_texts(items.drop_last()).push(t),
            None => item_texts(items.drop_last()),
        }
    }
}

/// The list that a JSON value stands for: the texts of an array's
/// elements; the parts of a string between its commas, trimmed, without
/// the blank ones; the text of a number or a boolean alone; nothing else.
pub open spec fn list_of(value: Option<JsonModel>) -> Seq<Seq<char>> {
    match value {
        Some(JsonModel::Array(items)) => item_texts(items),
        Some(JsonModel::Text(t)) => trimmed_non_blank(parts(trim(t), ',')),
        Some(JsonModel::Null) => Seq::empty(),
        None => Seq::empty(),
        Some(other) => match text_of(Some(other)) {
            Some(t) => seq![t],
            None => Seq::empty(),
        },
    }
}

/// Splits a text at each separator.
pub fn split_on(v: &Vec<char>, sep: char) -> (r: Vec<String>)
    ensures
        texts(r@) == parts(v@, sep),
{
    let mut done: Vec<String> = Vec::new();
    let mut cur = String::new();
    let mut i: usize = 0;
    assert(texts(done@) + parts_from(v@, sep, 0, cur@) =~= parts(v@, sep));
    while i < v.len()
        invariant
            i <= v.len(),
            texts(done@) + parts_from(v@, sep, i as int, cur@) == parts(v@, sep),
        decreases v.len() - i,
    {
        let c = v[i];
        let ghost rest = parts_from(v@, sep, i + 1, Seq::empty());
        if c == sep {
            let ghost before = texts(done@);
            let ghost word = cur@;
            assert(parts_from(v@, sep, i as int, word) == seq![word] + rest);
            done.push(cur);
            cur = String::new();
            assert(texts(done@) =~= before.push(word));
            assert(before.push(word) + rest =~= before + (seq![word] + rest));
        } else {
            assert(parts_from(v@, sep, i as int, cur@) == parts_from(v@, sep, i + 1, cur@.push(c)));
            push_char(&mut cur, c);
        }
        i += 1;
    }
    let ghost before = texts(done@);
    let ghost word = cur@;
    done.push(cur);
    assert(texts(done@) =~= before.push(word));
    assert(before.push(word) =~= before + seq![word]);
    done
}

/// Trims each text and drops the blank ones.
pub fn trim_all(list: &Vec<String>) -> (r: Vec<String>)
    ensures
        texts(r@) == trimmed_non_blank(texts(list@)),
{
    let mut out: Vec<String> = Vec::new();
    let mut i: usize = 0;
    while i < list.len()
        invariant
            i <= list.len(),
            texts(out@) == trimmed_non_blank(texts(list@).take(i as int)),
        decreases list.len() - i,
    {
        proof {
            let all = texts(list@);
            assert(all.take(i + 1).drop_last() =~= all.take(i as int));
            assert(all.take(i + 1).last() == list@[i as int]@);
        }
        let t = trimmed(list[i].as_str());
        if t.as_str().unicode_len() > 0 {
            let ghost before = texts(out@);
            out.push(t);
            assert(texts(out@) =~= before.push(trim(list@[i as int]@)));
        }
        i += 1;
    }
    assert(texts(list@).take(list.len() as int) =~= texts(list@));
    out
}

pub fn value_to_vec(value: Option<&JsonValue>) -> (r: Vec<String>)
    ensures
        texts(r@) == list_of(opt_model(value)),
{
    match value {
        Some(JsonValue::Array(items)) => {
            let ghost all = value->0.model()->Array_0;
            let mut out: Vec<String> = Vec::new();
            let mut i: usize = 0;
            while i < items.len()
                invariant
                    i <= items.len(),
                    all.len() == items.len(),
                    forall|k: int| 0 <= k < items.len() ==> all[k] == items@[k].model(),
                    texts(out@) == item_texts(all.take(i as int)),
                decreases items.len() - i,
            {
                proof {
                    assert(all.take(i + 1).drop_last() =~= all.take(i as int));
                    assert(all.take(i + 1).last() == items@[i as int].model());
                }
                match value_to_string(Some(&items[i])) {
                    Some(t) => {
                        let ghost before = texts(out@);
                        out.push(t);
                        assert(texts(out@) =~= before.push(t@));
                    },
                    None => {},
                }
                i += 1;
            }
            assert(all.take(items.len() as int) =~= all);
            out
        },
        Some(JsonValue::Text(text)) => {
            let t = trimmed(text.as_str());
            let pieces = split_on(&chars_of(t.as_str()), ',');
            trim_all(&pieces)
        },
        Some(JsonValue::Null) => {
            let out: Vec<String> = Vec::new();
            assert(texts(out@) =~= Seq::<Seq<char>>::empty());
            out
        },
        None => {
            let out: Vec<String> = Vec::new();
            assert(texts(out@) =~= Seq::<Seq<char>>::empty());
            out
        },
        Some(other) => {
            let mut out: Vec<String> = Vec::new();
            match value_to_string(Some(other)) {
                Some(t) => {
                    out.push(t);
                    assert(texts(out@) =~= seq![t@]);
                },
                None => {
                    assert(texts(out@) =~= Seq::<Seq<char>>::empty());
                },
            }
            out
        },
    }
}

/// The text from which a confidence is read as a number: a number as it is
/// printed, a string trimmed; none for anything else.
pub open spec fn confidence_text_of(value: Option<JsonModel>) -> Option<Seq<char>> {
    match value {
        Some(JsonModel::Number(n)) => Some(n),
        Some(JsonModel::Text(t)) => Some(trim(t)),
        _ => None,
    }
}

pub fn confidence_source(value: Option<&JsonValue>) -> (r: Option<String>)
    ensures
        opt_text(r) == confidence_text_of(opt_model(value)),
{
    match value {
        Some(JsonValue::Number(number)) => Some(number.clone()),
        Some(JsonValue::Text(text)) => Some(trimmed(text.as_str())),
        _ => None,
    }
}

/// The object that a JSON value stands for: an object itself, the empty
/// object for null or nothing, and any other value wrapped under `raw`.
pub open spec fn object_of(value: Option<JsonModel>) -> JsonModel {
    match value {
        Some(JsonModel::Object(members)) => JsonModel::Object(members),
        Some(JsonModel::Null) => JsonModel::Object(Seq::empty()),
        None => JsonModel::Object(Seq::empty()),
        Some(other) => JsonModel::Object(seq![("raw"@, other)]),
    }
}

pub fn value_to_object(value: Option<&JsonValue>) -> (r: JsonValue)
    ensures
        r.model() == object_of(opt_model(value)),
{
    match value {
        Some(JsonValue::Object(_)) => value.unwrap().duplicate(),
        Some(JsonValue::Null) => JsonValue::empty_object(),
        None => JsonValue::empty_object(),
        Some(other) => {
            let mut members: Vec<(String, JsonValue)> = Vec::new();
            members.push(("raw".to_owned(), other.duplicate()));
            let r = JsonValue::Object(members);
            assert(r.model()->Object_0 =~= seq![("raw"@, other.model())]);
            r
        },
    }
}

/// A raw tag names an allowed tag when, trimmed, it is the allowed tag up
/// to the case of ASCII letters.
pub open spec fn names_tag(raw: Seq<Seq<char>>, allowed: Seq<char>) -> bool {
    exists|i: int| 0 <= i < raw.len() && eq_ignoring_ascii_case(trim(#[trigger] raw[i]), allowed)
}

/// The allowed tags that the raw tags name, in the order of the allowed
/// list and in its spelling.
pub open spec fn sanitized(raw: Seq<Seq<char>>, allowed: Seq<Seq<char>>) -> Seq<Seq<char>>
    decreases allowed.len(),
{
    if allowed.len() == 0 {
        Seq::empty()
    } else if names_tag(raw, allowed.last()) {
        sanitized(raw, allowed.drop_last()).push(allowed.last())
    } else {
        sanitized(raw, allowed.drop_last())
    }
}

/// `a` is made of elements of `b`, in the order in which `b` holds them.
pub open spec fn is_subsequence(a: Seq<Seq<char>>, b: Seq<Seq<char>>) -> bool
    decreases b.len(),
{
    if a.len() == 0 {
        true
    } else if b.len() == 0 {
        false
    } else {
        (a.last() == b.last() && is_subsequence(a.drop_last(), b.drop_last())) || is_subsequence(
            a,
            b.drop_last(),
        )
    }
}

/// Whatever the raw tags are, the sanitized tags are allowed tags, each at
/// most as often as the allowed list holds it, in the order of that list.
pub proof fn lemma_sanitized_within_allowed(raw: Seq<Seq<char>>, allowed: Seq<Seq<char>>)
    ensures
        is_subsequence(sanitized(raw, allowed), allowed),
        forall|i: int|
            0 <= i < sanitized(raw, allowed).len() ==> allowed.contains(
                #[trigger] sanitized(raw, allowed)[i],
            ),
        sanitized(raw, allowed).len() <= allowed.len(),
    decreases allowed.len(),
{
    if allowed.len() > 0 {
        let rest = allowed.drop_last();
        lemma_sanitized_within_allowed(raw, rest);
        let kept = sanitized(raw, rest);
        if names_tag(raw, allowed.last()) {
            assert(kept.push(allowed.last()).drop_last() =~= kept);
        }
        let all = sanitized(raw, allowed);
        assert forall|i: int| 0 <= i < all.len() implies allowed.contains(#[trigger] all[i]) by {
            if i < kept.len() {
                let k = choose|k: int| 0 <= k < rest.len() && rest[k] == kept[i];
                assert(allowed[k] == all[i]);
            } else {
                assert(allowed[allowed.len() - 1] == all[i]);
            }
        }
    }
}

fn any_names(trimmed_raw: &Vec<Vec<char>>, allowed: &Vec<char>) -> (r: bool)
    ensures
        r == exists|m: int|
            0 <= m < trimmed_raw.len() && eq_ignoring_ascii_case(
                (#[trigger] trimmed_raw@[m])@,
                allowed@,
            ),
{
    let mut k: usize = 0;
    while k < trimmed_raw.len()
        invariant
            k <= trimmed_raw.len(),
            forall|m: int|
                0 <= m < k ==> !eq_ignoring_ascii_case((#[trigger] trimmed_raw@[m])@, allowed@),
        decreases trimmed_raw.len() - k,
    {
        if same_ignoring_ascii_case(&trimmed_raw[k], allowed) {
            return true;
        }
        k += 1;
    }
    false
}

pub fn sanitize_tags(raw_tags: &Vec<String>, allowed_tags: &Vec<String>) -> (r: Vec<String>)
    ensures
        texts(r@) == sanitized(texts(raw_tags@), texts(allowed_tags@)),
{
    let mut trimmed_raw: Vec<Vec<char>> = Vec::new();
    let mut j: usize = 0;
    while j < raw_tags.len()
        invariant
            j <= raw_tags.len(),
            trimmed_raw.len() == j,
            forall|k: int| 0 <= k < j ==> (#[trigger] trimmed_raw@[k])@ == trim(raw_tags@[k]@),
        decreases raw_tags.len() - j,
    {
        let t = trimmed(raw_tags[j].as_str());
        trimmed_raw.push(chars_of(t.as_str()));
        j += 1;
    }
    let mut out: Vec<String> = Vec::new();
    let mut i: usize = 0;
    while i < allowed_tags.len()
        invariant
            i <= allowed_tags.len(),
            trimmed_raw.len() == raw_tags.len(),
            forall|k: int|
                0 <= k < raw_tags.len() ==> (#[trigger] trimmed_raw@[k])@ == trim(raw_tags@[k]@),
            texts(out@) == sanitized(texts(raw_tags@), texts(allowed_tags@).take(i as int)),
        decreases allowed_tags.len() - i,
    {
        let ghost raw = texts(raw_tags@);
        let ghost all = texts(allowed_tags@);
        let allowed_chars = chars_of(allowed_tags[i].as_str());
        let found = any_names(&trimmed_raw, &allowed_chars);
        proof {
            assert(all.take(i + 1).drop_last() =~= all.take(i as int));
            assert(all.take(i + 1).last() == allowed_chars@);
            if found {
                let m = choose|m: int|
                    0 <= m < trimmed_raw.len() && eq_ignoring_ascii_case(
                        (#[trigger] trimmed_raw@[m])@,
                        allowed_chars@,
                    );
                assert(eq_ignoring_ascii_case(trim(raw[m]), allowed_chars@));
            } else {
                assert forall|m: int| 0 <= m < raw.len() implies !eq_ignoring_ascii_case(
                    trim(#[trigger] raw[m]),
                    allowed_chars@,
                ) by {
                    assert(trimmed_raw@[m]@ == trim(raw_tags@[m]@));
                }
            }
        }
        if found {
            let ghost before = texts(out@);
            out.push(allowed_tags[i].clone());
            assert(texts(out@) =~= before.push(allowed_chars@));
        }
        i += 1;
    }
    assert(texts(allowed_tags@).take(allowed_tags.len() as int) =~= texts(allowed_tags@));
    out
}

/// The bounds of the first balanced object of a text, found by counting
/// braces from position `i` on. `start` is where the first opening brace
/// stood and `depth` the number of braces that are open.
pub open spec fn scan_object(s: Seq<char>, i: int, start: Option<int>, depth: nat) -> Option<
    (int, int),
>
    decreases s.len() - i,
{
    if i >= s.len() {
        None
    } else if s[i] == '{' {
        scan_object(
            s,
            i + 1,
            if start is None {
                Some(i)
            } else {
                start
            },
            depth + 1,
        )
    } else if s[i] == '}' && depth > 0 {
        if depth == 1 {
            match start {
                Some(a) => Some((a, i)),
                None => None,
            }
        } else {
            scan_object(s, i + 1, start, (depth - 1) as nat)
        }
    } else {
        scan_object(s, i + 1, start, depth)
    }
}

/// The first balanced `{…}` of a text: it begins at the first opening
/// brace and ends where as many braces were closed as opened.
pub open spec fn json_object_of(s: Seq<char>) -> Option<Seq<char>> {
    match scan_object(s, 0, None, 0) {
        Some((a, b)) => if 0 <= a <= b < s.len() {
            Some(s.subrange(a, b + 1))
        } else {
            None
        },
        None => None,
    }
}

#[verifier::loop_isolation(false)]
pub fn extract_json_object(raw: &str) -> (r: Option<String>)
    ensures
        opt_text(r) == json_object_of(raw@),
{
    let chars = chars_of(raw);
    let mut start: Option<usize> = None;
    let mut depth: usize = 0;
    let mut i: usize = 0;
    while i < chars.len()
        invariant
            i <= chars.len(),
            depth <= i,
            depth > 0 ==> start is Some,
            start is Some ==> start->0 < i,
            scan_object(chars@, 0, None, 0) == scan_object(
                chars@,
                i as int,
                match start {
                    Some(a) => Some(a as int),
                    None => None,
                },
                depth as nat,
            ),
        decreases chars.len() - i,
    {
        let c = chars[i];
        if c == '{' {
            if start.is_none() {
                start = Some(i);
            }
            depth += 1;
        } else if c == '}' && depth > 0 {
            depth -= 1;
            if depth == 0 {
                match start {
                    Some(a) => {
                        return Some(string_of_range(&chars, a, i + 1));
                    },
                    None => {
                        return None;
                    },
                }
            }
        }
        i += 1;
    }
    None
}

/// What parsing makes of a model's reply: the reply is trimmed; a blank
/// reply is an error; a reply that is JSON is that document; otherwise the
/// first balanced object of the reply is parsed in its place.
pub open spec fn bulk_json_of(raw: Seq<char>) -> Result<JsonModel, Seq<char>> {
    let t = trim(raw);
    if t.len() == 0 {
        Err("model response was empty"@)
    } else {
        match json_parse_of(t) {
            Ok(v) => Ok(v),
            Err(_) => match json_object_of(t) {
                Some(part) => match json_parse_of(part) {
                    Ok(v) => Ok(v),
                    Err(e) => Err("failed to parse JSON object from model: "@ + e),
                },
                None => Err("model response did not contain valid JSON"@),
            },
        }
    }
}

/// Chooses among the two attempts at parsing a reply. `strict` is what
/// parsing the whole reply gave; `extracted` is what parsing its first
/// balanced object gave, or none where the reply holds no such object.
pub fn choose_parse(strict: Result<JsonValue, String>, extracted: Option<Result<JsonValue, String>>) -> (r:
    Result<JsonValue, String>)
    ensures
        parsed_model(r) == match parsed_model(strict) {
            Ok(v) => Ok::<JsonModel, Seq<char>>(v),
            Err(_) => match extracted {
                Some(second) => match parsed_model(second) {
                    Ok(v) => Ok::<JsonModel, Seq<char>>(v),
                    Err(e) => Err::<JsonModel, Seq<char>>(
                        "failed to parse JSON object from model: "@ + e,
                    ),
                },
                None => Err::<JsonModel, Seq<char>>("model response did not contain valid JSON"@),
            },
        },
{
    match strict {
        Ok(v) => Ok(v),
        Err(_) => match extracted {
            Some(Ok(v)) => Ok(v),
            Some(Err(e)) => {
                let mut message = "failed to parse JSON object from model: ".to_owned();
                push_text(&mut message, e.as_str());
                Err(message)
            },
            None => Err("model response did not contain valid JSON".to_owned()),
        },
    }
}

pub fn parse_bulk_json(raw: &str) -> (r: Result<JsonValue, String>)
    ensures
        parsed_model(r) == bulk_json_of(raw@),
{
    let t = trimmed(raw);
    if t.as_str().unicode_len() == 0 {
        return Err("model response was empty".to_owned());
    }
    let strict = parse_json(t.as_str());
    if strict.is_ok() {
        return strict;
    }
    let extracted = match extract_json_object(t.as_str()) {
        Some(part) => Some(parse_json(part.as_str())),
        None => None,
    };
    choose_parse(strict, extracted)
}

} // verus!
