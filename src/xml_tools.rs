//! Reading the engine's XML documents.
//!
//! Events come from quick-xml; what a document means (whether it is an athenaCL object, and the
//! nested dictionaries it describes) is decided here.

use vstd::prelude::*;
use vstd::slice::slice_to_vec;

use ahash::AHashMap;
use quick_xml::events::{BytesStart, Event};
use quick_xml::Reader;

verus! {

#[verifier::external_type_specification]
#[verifier::external_body]
#[verifier::reject_recursive_types(R)]
pub struct ExReader<R>(Reader<R>);

#[verifier::external_type_specification]
#[verifier::external_body]
pub struct ExBytesStart<'a>(BytesStart<'a>);

#[verifier::external_type_specification]
#[verifier::external_body]
#[verifier::reject_recursive_types(K)]
#[verifier::reject_recursive_types(V)]
#[verifier::reject_recursive_types(S)]
pub struct ExAHashMap<K, V, S>(AHashMap<K, V, S>);

#[verifier::external_type_specification]
#[verifier::external_body]
pub struct ExRandomState(ahash::RandomState);

/// Attributes by key.
pub type AttrCache = AHashMap<Vec<u8>, Vec<u8>>;

/// What an attribute cache maps each key to.
pub uninterp spec fn cache_contents(m: AttrCache) -> Map<Seq<u8>, Seq<u8>>;

/// Relies on ahash::AHashMap::new: the map starts empty.
#[verifier::external_body]
fn new_attr_cache() -> (r: AttrCache)
    ensures
        cache_contents(r).dom() == Set::<Seq<u8>>::empty(),
{
    AHashMap::new()
}

/// Relies on ahash::AHashMap::insert: the key maps to the value from now on; byte vectors are
/// equal keys exactly when their bytes are.
#[verifier::external_body]
fn cache_insert(m: &mut AttrCache, key: Vec<u8>, value: Vec<u8>)
    ensures
        cache_contents(*final(m)) == cache_contents(*old(m)).insert(key@, value@),
{
    m.insert(key, value);
}

/// Relies on ahash::AHashMap::remove: the key's value, if any, which leaves the map.
#[verifier::external_body]
fn cache_remove(m: &mut AttrCache, key: &[u8]) -> (r: Option<Vec<u8>>)
    ensures
        cache_contents(*final(m)) == cache_contents(*old(m)).remove(key@),
        cache_contents(*old(m)).contains_key(key@) ==> (r matches Some(v) && v@ == cache_contents(
            *old(m),
        )[key@]),
        !cache_contents(*old(m)).contains_key(key@) ==> r is None,
{
    m.remove(key)
}

/// One event of a document, as this module tells them apart.
pub enum XmlEvent<'a> {
    Start(BytesStart<'a>),
    Empty(BytesStart<'a>),
    End,
    Eof,
    Other,
}

/// Relies on quick_xml::Reader::from_str: a reader over the text of `content`.
#[verifier::external_body]
fn reader_from_str(content: &str) -> Reader<&[u8]> {
    Reader::from_str(content)
}

/// Relies on quick_xml::Reader::trim_text: whitespace around text is dropped.
#[verifier::external_body]
fn trim_text(reader: &mut Reader<&[u8]>) {
    reader.trim_text(true);
}

/// Relies on quick_xml::Reader::read_event: the next event, or the parse error as text.
#[verifier::external_body]
fn read_event<'a>(reader: &mut Reader<&'a [u8]>) -> Result<XmlEvent<'a>, String> {
    match reader.read_event() {
        Ok(Event::Start(e)) => Ok(XmlEvent::Start(e)),
        Ok(Event::Empty(e)) => Ok(XmlEvent::Empty(e)),
        Ok(Event::End(_)) => Ok(XmlEvent::End),
        Ok(Event::Eof) => Ok(XmlEvent::Eof),
        Ok(_) => Ok(XmlEvent::Other),
        Err(err) => Err(format!("{:?}", err)),
    }
}

/// Relies on quick_xml::Reader::buffer_position: how far the reader got, in bytes.
#[verifier::external_body]
fn reader_position(reader: &Reader<&[u8]>) -> usize {
    reader.buffer_position()
}

/// Relies on quick_xml::events::BytesStart::name: the element's qualified name.
#[verifier::external_body]
fn tag_name(e: &BytesStart) -> Vec<u8> {
    e.name().as_ref().to_vec()
}

/// Relies on quick_xml::events::BytesStart::attributes: the element's attributes as
/// `(key, raw value)` pairs in document order, or the first malformed one as text.
#[verifier::external_body]
fn attributes_of(e: &BytesStart) -> Result<Vec<(Vec<u8>, Vec<u8>)>, String> {
    e.attributes().map(|a| a.map(|a| (a.key.as_ref().to_vec(), a.value.to_vec()))).collect::<
        Result<Vec<_>, _>,
    >().map_err(|err| format!("{:?}", err))
}

/// The decimal digits of `n`.
pub open spec fn decimal_text(n: nat) -> Seq<char>
    decreases n,
{
    if n < 10 {
        seq![digit_char(n)]
    } else {
        decimal_text(n / 10) + seq![digit_char(n % 10)]
    }
}

pub open spec fn digit_char(d: nat) -> char {
    if d == 0 {
        '0'
    } else if d == 1 {
        '1'
    } else if d == 2 {
        '2'
    } else if d == 3 {
        '3'
    } else if d == 4 {
        '4'
    } else if d == 5 {
        '5'
    } else if d == 6 {
        '6'
    } else if d == 7 {
        '7'
    } else if d == 8 {
        '8'
    } else {
        '9'
    }
}

fn digit_str(d: usize) -> (r: &'static str)
    requires
        d < 10,
    ensures
        r@ == seq![digit_char(d as nat)],
{
    proof {
        reveal_strlit("0");
        reveal_strlit("1");
        reveal_strlit("2");
        reveal_strlit("3");
        reveal_strlit("4");
        reveal_strlit("5");
        reveal_strlit("6");
        reveal_strlit("7");
        reveal_strlit("8");
        reveal_strlit("9");
    }
    if d == 0 {
        "0"
    } else if d == 1 {
        "1"
    } else if d == 2 {
        "2"
    } else if d == 3 {
        "3"
    } else if d == 4 {
        "4"
    } else if d == 5 {
        "5"
    } else if d == 6 {
        "6"
    } else if d == 7 {
        "7"
    } else if d == 8 {
        "8"
    } else {
        "9"
    }
}

/// `n` in decimal.
pub fn decimal(n: usize) -> (r: String)
    ensures
        r@ == decimal_text(n as nat),
    decreases n,
{
    if n < 10 {
        String::from_str(digit_str(n))
    } else {
        let mut r = decimal(n / 10);
        r.append(digit_str(n % 10));
        r
    }
}

/// The message for a document that quick-xml could not read.
pub open spec fn parse_error_text(position: nat, error: Seq<char>) -> Seq<char> {
    "Error parsing XML at "@ + decimal_text(position) + ": "@ + error
}

pub fn parse_error_message(position: usize, error: &String) -> (r: String)
    ensures
        r@ == parse_error_text(position as nat, error@),
{
    let mut r = String::from_str("Error parsing XML at ");
    let digits = decimal(position);
    r.append(digits.as_str());
    r.append(": ");
    r.append(error.as_str());
    r
}

/// Whether two byte strings are equal.
pub fn bytes_equal(a: &[u8], b: &[u8]) -> (r: bool)
    ensures
        r == (a@ == b@),
{
    if a.len() != b.len() {
        return false;
    }
    let mut i: usize = 0;
    while i < a.len()
        invariant
            a@.len() == b@.len(),
            i <= a@.len(),
            forall|j: int| 0 <= j < i ==> a@[j] == b@[j],
        decreases a@.len() - i,
    {
        if a[i] != b[i] {
            return false;
        }
        i += 1;
    }
    assert(a@ =~= b@);
    true
}

/// The tag of an athenaCL object document: `athenaObject`.
pub open spec fn object_tag() -> Seq<u8> {
    seq![97u8, 116u8, 104u8, 101u8, 110u8, 97u8, 79u8, 98u8, 106u8, 101u8, 99u8, 116u8]
}

fn object_tag_bytes() -> (r: Vec<u8>)
    ensures
        r@ == object_tag(),
{
    let r = vec![97u8, 116u8, 104u8, 101u8, 110u8, 97u8, 79u8, 98u8, 106u8, 101u8, 99u8, 116u8];
    assert(r@ =~= object_tag());
    r
}

/// What the format check sees of one event.
pub enum FormatEvent {
    /// An opening tag with this name.
    Tag(Vec<u8>),
    Eof,
    /// The document could not be read; the text says where and why.
    Failed(String),
    Other,
}

/// The verdict of a format check: the format's name and a message.
pub struct FormatVerdict {
    pub format: String,
    pub message: String,
}

/// The verdict after one more event, and whether the check is over.
pub open spec fn format_step_result(
    format: Seq<char>,
    message: Seq<char>,
    ev: FormatEvent,
) -> (Seq<char>, Seq<char>, bool) {
    match ev {
        FormatEvent::Tag(name) => (format, message, name@ == object_tag()),
        FormatEvent::Eof => ("unknown"@, "error reading the file"@, true),
        FormatEvent::Failed(text) => ("unknown"@, text@, false),
        FormatEvent::Other => (format, message, false),
    }
}

/// The verdicts that a format check can give.
pub open spec fn is_format_verdict(format: Seq<char>, message: Seq<char>) -> bool {
    ||| format == "xml"@ && message == "ok"@
    ||| format == "unknown"@ && message == "error reading the file"@
    ||| format == "unknown"@ && exists|p: nat, e: Seq<char>| message == parse_error_text(p, e)
}

/// Folds one event into the verdict. Returns whether the check is over: an `athenaObject`
/// element or the end of the document ends it; a read error is noted and reading goes on.
pub fn format_step(verdict: &mut FormatVerdict, ev: FormatEvent) -> (stop: bool)
    ensures
        (final(verdict).format@, final(verdict).message@, stop) == format_step_result(
            old(verdict).format@,
            old(verdict).message@,
            ev,
        ),
{
    match ev {
        FormatEvent::Tag(name) => {
            let tag = object_tag_bytes();
            bytes_equal(name.as_slice(), tag.as_slice())
        },
        FormatEvent::Eof => {
            verdict.format = String::from_str("unknown");
            verdict.message = String::from_str("error reading the file");
            true
        },
        FormatEvent::Failed(text) => {
            verdict.format = String::from_str("unknown");
            verdict.message = text;
            false
        },
        FormatEvent::Other => false,
    }
}

/// Checks whether `content` is an athenaCL XML document: `("xml", "ok")` when it reaches an
/// `athenaObject` element, else `"unknown"` with the reason.
pub fn check_file_format(content: &str) -> (r: FormatVerdict)
    ensures
        is_format_verdict(r.format@, r.message@),
{
    let mut reader = reader_from_str(content);
    trim_text(&mut reader);
    let mut verdict = FormatVerdict {
        format: String::from_str("xml"),
        message: String::from_str("ok"),
    };
    // every event but the last consumes at least one byte
    let mut fuel: usize = content.len();
    loop
        invariant
            is_format_verdict(verdict.format@, verdict.message@),
        decreases fuel,
    {
        let ghost mut cause: (nat, Seq<char>) = (0, Seq::empty());
        let ev = match read_event(&mut reader) {
            Ok(XmlEvent::Start(e)) => FormatEvent::Tag(tag_name(&e)),
            Ok(XmlEvent::Eof) => FormatEvent::Eof,
            Ok(_) => FormatEvent::Other,
            Err(err) => {
                let position = reader_position(&reader);
                proof {
                    cause = (position as nat, err@);
                }
                FormatEvent::Failed(parse_error_message(position, &err))
            },
        };
        assert(ev matches FormatEvent::Failed(t) ==> t@ == parse_error_text(cause.0, cause.1));
        if format_step(&mut verdict, ev) {
            break ;
        }
        if fuel == 0 {
            break ;
        }
        fuel -= 1;
    }
    verdict
}

/// An attribute: its key and its raw value.
pub type AttrView = (Seq<u8>, Seq<u8>);

pub open spec fn attrs_view(attrs: Seq<(Vec<u8>, Vec<u8>)>) -> Seq<AttrView> {
    attrs.map_values(|a: (Vec<u8>, Vec<u8>)| (a.0@, a.1@))
}

/// `j` is the first attribute named `key`.
pub open spec fn is_first(attrs: Seq<AttrView>, key: Seq<u8>, j: int) -> bool {
    &&& 0 <= j < attrs.len()
    &&& attrs[j].0 == key
    &&& forall|k: int| 0 <= k < j ==> attrs[k].0 != key
}

/// `j` is the last attribute named `key`.
pub open spec fn is_last(attrs: Seq<AttrView>, key: Seq<u8>, j: int) -> bool {
    &&& 0 <= j < attrs.len()
    &&& attrs[j].0 == key
    &&& forall|k: int| j < k < attrs.len() ==> attrs[k].0 != key
}

pub open spec fn has_attr(attrs: Seq<AttrView>, key: Seq<u8>) -> bool {
    exists|j: int| 0 <= j < attrs.len() && attrs[j].0 == key
}

/// The value of the first attribute named `key`, if any.
pub open spec fn first_attr(attrs: Seq<AttrView>, key: Seq<u8>) -> Option<Seq<u8>> {
    if has_attr(attrs, key) {
        Some(attrs[choose|j: int| is_first(attrs, key, j)].1)
    } else {
        None
    }
}

/// The value of the last attribute named `key`, or nothing.
pub open spec fn last_attr(attrs: Seq<AttrView>, key: Seq<u8>) -> Seq<u8> {
    if has_attr(attrs, key) {
        attrs[choose|j: int| is_last(attrs, key, j)].1
    } else {
        Seq::empty()
    }
}

/// `name`
pub open spec fn name_key() -> Seq<u8> {
    seq![110u8, 97u8, 109u8, 101u8]
}

/// `key`
pub open spec fn key_key() -> Seq<u8> {
    seq![107u8, 101u8, 121u8]
}

/// `value`
pub open spec fn value_key() -> Seq<u8> {
    seq![118u8, 97u8, 108u8, 117u8, 101u8]
}

/// The name under which an element's dictionary is stored: its `name` attribute, else its tag.
pub open spec fn element_name_of(tag: Seq<u8>, attrs: Seq<AttrView>) -> Seq<u8> {
    match first_attr(attrs, name_key()) {
        Some(v) => v,
        None => tag,
    }
}

/// The value of the first attribute named `key`, if any.
fn find_first_attr(attrs: &Vec<(Vec<u8>, Vec<u8>)>, key: &[u8]) -> (r: Option<Vec<u8>>)
    ensures
        r matches Some(v) ==> first_attr(attrs_view(attrs@), key@) == Some(v@),
        r is None ==> first_attr(attrs_view(attrs@), key@) is None,
{
    let ghost av = attrs_view(attrs@);
    let mut i: usize = 0;
    while i < attrs.len()
        invariant
            av == attrs_view(attrs@),
            av.len() == attrs@.len(),
            i <= attrs.len(),
            forall|k: int| 0 <= k < i ==> av[k].0 != key@,
        decreases attrs.len() - i,
    {
        if bytes_equal(attrs[i].0.as_slice(), key) {
            proof {
                assert(is_first(av, key@, i as int));
                let c = choose|j: int| is_first(av, key@, j);
                assert(c == i);
            }
            return Some(slice_to_vec(attrs[i].1.as_slice()));
        }
        i += 1;
    }
    None
}

/// The name under which an element's dictionary is stored.
pub fn element_name(tag: Vec<u8>, attrs: &Vec<(Vec<u8>, Vec<u8>)>) -> (r: Vec<u8>)
    ensures
        r@ == element_name_of(tag@, attrs_view(attrs@)),
{
    let key = vec![110u8, 97u8, 109u8, 101u8];
    assert(key@ =~= name_key());
    match find_first_attr(attrs, key.as_slice()) {
        Some(v) => v,
        None => tag,
    }
}

/// What the entry of an empty element holds: its `key` and `value` attributes (the last of
/// each), either one empty when missing.
pub fn entry_of(attrs: &Vec<(Vec<u8>, Vec<u8>)>) -> (r: (Vec<u8>, Vec<u8>))
    ensures
        r.0@ == last_attr(attrs_view(attrs@), key_key()),
        r.1@ == last_attr(attrs_view(attrs@), value_key()),
{
    let ghost av = attrs_view(attrs@);
    let mut cache = new_attr_cache();
    let mut i: usize = 0;
    while i < attrs.len()
        invariant
            av == attrs_view(attrs@),
            av.len() == attrs@.len(),
            i <= attrs.len(),
            forall|k: Seq<u8>|
                cache_contents(cache).contains_key(k) <==> has_attr(av.take(i as int), k),
            forall|k: Seq<u8>|
                has_attr(av.take(i as int), k) ==> exists|j: int| is_last(av.take(i as int), k, j),
            forall|k: Seq<u8>, j: int|
                is_last(av.take(i as int), k, j) ==> cache_contents(cache)[k] == av[j].1,
        decreases attrs.len() - i,
    {
        let ghost before = av.take(i as int);
        let ghost after = av.take(i + 1);
        let ghost a = av[i as int];
        cache_insert(
            &mut cache,
            slice_to_vec(attrs[i].0.as_slice()),
            slice_to_vec(attrs[i].1.as_slice()),
        );
        proof {
            assert(after =~= before.push(a));
            assert forall|k: Seq<u8>|
                cache_contents(cache).contains_key(k) <==> has_attr(after, k) by {
                if has_attr(after, k) && k != a.0 {
                    let j = choose|j: int| 0 <= j < after.len() && after[j].0 == k;
                    assert(before[j].0 == k);
                }
                if k == a.0 {
                    assert(after[i as int].0 == k);
                }
            }
            assert forall|k: Seq<u8>| has_attr(after, k) implies exists|j: int|
                is_last(after, k, j) by {
                if k == a.0 {
                    assert(is_last(after, k, i as int));
                } else {
                    let j0 = choose|j: int| 0 <= j < after.len() && after[j].0 == k;
                    assert(before[j0].0 == k);
                    let j = choose|j: int| is_last(before, k, j);
                    assert(is_last(after, k, j));
                }
            }
            assert forall|k: Seq<u8>, j: int| is_last(after, k, j) implies cache_contents(
                cache,
            )[k] == av[j].1 by {
                if k != a.0 {
                    assert(j != i);
                    assert(is_last(before, k, j));
                } else {
                    assert(after[i as int].0 == k);
                    assert(j == i);
                }
            }
        }
        i += 1;
    }
    proof {
        assert(av.take(i as int) =~= av);
    }
    let key_name = vec![107u8, 101u8, 121u8];
    let value_name = vec![118u8, 97u8, 108u8, 117u8, 101u8];
    assert(key_name@ =~= key_key());
    assert(value_name@ =~= value_key());
    let value = match cache_remove(&mut cache, value_name.as_slice()) {
        Some(v) => v,
        None => Vec::new(),
    };
    let key = match cache_remove(&mut cache, key_name.as_slice()) {
        Some(k) => k,
        None => Vec::new(),
    };
    proof {
        assert(key_key() != value_key());
        if has_attr(av, key_key()) {
            let j = choose|j: int| is_last(av, key_key(), j);
        }
        if has_attr(av, value_key()) {
            let j = choose|j: int| is_last(av, value_key(), j);
        }
    }
    (key, value)
}

/// A value of a dictionary: text, or the dictionary at this index of the tree.
#[derive(Debug)]
pub enum XmlValue {
    Text(Vec<u8>),
    Dict(usize),
}

pub enum XmlValueView {
    Text(Seq<u8>),
    Dict(nat),
}

pub open spec fn value_view(v: XmlValue) -> XmlValueView {
    match v {
        XmlValue::Text(t) => XmlValueView::Text(t@),
        XmlValue::Dict(i) => XmlValueView::Dict(i as nat),
    }
}

/// Entries in insertion order; a key occurs once.
pub type DictView = Seq<(Seq<u8>, XmlValueView)>;

/// A dictionary: its entries in insertion order.
#[derive(Debug)]
pub struct XmlDict {
    pub entries: Vec<(Vec<u8>, XmlValue)>,
}

pub open spec fn dict_view(d: XmlDict) -> DictView {
    d.entries@.map_values(|e: (Vec<u8>, XmlValue)| (e.0@, value_view(e.1)))
}

pub open spec fn dicts_view(dicts: Seq<XmlDict>) -> Seq<DictView> {
    dicts.map_values(|d: XmlDict| dict_view(d))
}

/// `j` is the first entry with `key`.
pub open spec fn is_key_at(d: DictView, key: Seq<u8>, j: int) -> bool {
    &&& 0 <= j < d.len()
    &&& d[j].0 == key
    &&& forall|k: int| 0 <= k < j ==> d[k].0 != key
}

/// The dictionary with `key` set to `v`: an entry with that key keeps its place and takes the
/// new value, else the entry is added at the end.
pub open spec fn set_entry(d: DictView, key: Seq<u8>, v: XmlValueView) -> DictView {
    if exists|j: int| 0 <= j < d.len() && d[j].0 == key {
        d.update(choose|j: int| is_key_at(d, key, j), (key, v))
    } else {
        d.push((key, v))
    }
}

/// What the tree builder does with one element event.
pub enum TreeEvent {
    /// An element opens; its dictionary is stored under this name when it closes.
    Open(Vec<u8>),
    /// An empty element inside an open one: an entry with this key and text.
    Entry(Vec<u8>, Vec<u8>),
    /// The innermost open element closes.
    Close,
}

/// The builder as a model: the open elements, innermost last, with their names and
/// dictionaries, and all dictionaries made so far (the first is the root).
pub struct BuilderView {
    pub stack: Seq<(Seq<u8>, nat)>,
    pub dicts: Seq<DictView>,
}

/// The dictionary that the innermost open element, or else the root, fills.
pub open spec fn current(stack: Seq<(Seq<u8>, nat)>) -> nat {
    if stack.len() > 0 {
        stack.last().1
    } else {
        0
    }
}

/// The builder after one event.
pub open spec fn tree_step(b: BuilderView, ev: TreeEvent) -> BuilderView {
    match ev {
        TreeEvent::Open(name) => BuilderView {
            stack: b.stack.push((name@, b.dicts.len())),
            dicts: b.dicts.push(Seq::empty()),
        },
        TreeEvent::Entry(key, text) => if b.stack.len() > 0 {
            let top = current(b.stack) as int;
            BuilderView {
                stack: b.stack,
                dicts: b.dicts.update(
                    top,
                    set_entry(b.dicts[top], key@, XmlValueView::Text(text@)),
                ),
            }
        } else {
            b
        },
        TreeEvent::Close => if b.stack.len() > 0 {
            let closed = b.stack.last();
            let rest = b.stack.drop_last();
            let parent = current(rest) as int;
            BuilderView {
                stack: rest,
                dicts: b.dicts.update(
                    parent,
                    set_entry(b.dicts[parent], closed.0, XmlValueView::Dict(closed.1)),
                ),
            }
        } else {
            b
        },
    }
}

/// Sets `key` to `v` in the dictionary at `i`.
fn set_entry_at(dicts: &mut Vec<XmlDict>, i: usize, key: Vec<u8>, v: XmlValue)
    requires
        i < old(dicts).len(),
    ensures
        dicts_view(final(dicts)@) == dicts_view(old(dicts)@).update(
            i as int,
            set_entry(dicts_view(old(dicts)@)[i as int], key@, value_view(v)),
        ),
{
    let ghost d0 = dict_view(dicts@[i as int]);
    let ghost kv = key@;
    let ghost vv = value_view(v);
    let mut j: usize = 0;
    let n = dicts[i].entries.len();
    while j < n
        invariant
            i < dicts.len(),
            n == dicts@[i as int].entries.len(),
            d0 == dict_view(dicts@[i as int]),
            d0.len() == n,
            j <= n,
            forall|k: int| 0 <= k < j ==> d0[k].0 != kv,
            *dicts == *old(dicts),
            kv == key@,
            vv == value_view(v),
        decreases n - j,
    {
        let same = bytes_equal(dicts[i].entries[j].0.as_slice(), key.as_slice());
        if same {
            proof {
                assert(d0[j as int].0 == dicts@[i as int].entries@[j as int].0@);
                assert(is_key_at(d0, kv, j as int));
                let c = choose|c: int| is_key_at(d0, kv, c);
                assert(c == j);
            }
            let ghost old_dicts = dicts@;
            let ghost old_entries = dicts@[i as int].entries@;
            dicts[i].entries.set(j, (key, v));
            proof {
                assert(dicts@[i as int].entries@ == old_entries.update(j as int, (key, v)));
                assert(dicts@.len() == old_dicts.len());
                assert(dict_view(dicts@[i as int]) =~= d0.update(j as int, (kv, vv)));
                assert(dicts_view(dicts@) =~= dicts_view(old_dicts).update(
                    i as int,
                    set_entry(d0, kv, vv),
                ));
            }
            return ;
        }
        j += 1;
    }
    let ghost old_dicts = dicts@;
    dicts[i].entries.push((key, v));
    proof {
        assert(dict_view(dicts@[i as int]) =~= d0.push((kv, vv)));
        assert(dicts_view(dicts@) =~= dicts_view(old_dicts).update(
            i as int,
            set_entry(d0, kv, vv),
        ));
    }
}

/// The dictionaries of a document; the first is the root.
#[derive(Debug)]
pub struct XmlTree {
    pub dicts: Vec<XmlDict>,
}

/// Builds the dictionaries of a document from its element events.
pub struct XmlTreeBuilder {
    stack: Vec<(Vec<u8>, usize)>,
    dicts: Vec<XmlDict>,
}

impl View for XmlTreeBuilder {
    type V = BuilderView;

    closed spec fn view(&self) -> BuilderView {
        BuilderView {
            stack: self.stack@.map_values(|e: (Vec<u8>, usize)| (e.0@, e.1 as nat)),
            dicts: dicts_view(self.dicts@),
        }
    }
}

impl XmlTreeBuilder {
    /// There is a root, and every open element has its dictionary.
    pub open spec fn wf(&self) -> bool {
        &&& self@.dicts.len() >= 1
        &&& forall|k: int|
            0 <= k < self@.stack.len() ==> (#[trigger] self@.stack[k]).1 < self@.dicts.len()
    }

    /// A builder with an empty root and no open element.
    pub fn new() -> (r: XmlTreeBuilder)
        ensures
            r.wf(),
            r@.stack.len() == 0,
            r@.dicts == seq![Seq::<(Seq<u8>, XmlValueView)>::empty()],
    {
        let root = XmlDict { entries: Vec::new() };
        assert(dict_view(root) =~= Seq::empty());
        let r = XmlTreeBuilder { stack: Vec::new(), dicts: vec![root] };
        assert(r@.dicts =~= seq![Seq::<(Seq<u8>, XmlValueView)>::empty()]);
        assert(r@.stack.len() == 0);
        r
    }

    /// How many elements are open.
    pub fn depth(&self) -> (r: usize)
        ensures
            r == self@.stack.len(),
    {
        self.stack.len()
    }

    /// Applies one element event.
    pub fn step(&mut self, ev: TreeEvent)
        requires
            old(self).wf(),
        ensures
            final(self).wf(),
            final(self)@ == tree_step(old(self)@, ev),
    {
        let ghost b0 = self@;
        match ev {
            TreeEvent::Open(name) => {
                let idx = self.dicts.len();
                let fresh = XmlDict { entries: Vec::new() };
                assert(dict_view(fresh) =~= Seq::empty());
                self.dicts.push(fresh);
                self.stack.push((name, idx));
                proof {
                    assert(self@.dicts =~= b0.dicts.push(Seq::empty()));
                    assert(self@.stack =~= b0.stack.push((name@, b0.dicts.len())));
                }
            },
            TreeEvent::Entry(key, text) => {
                let n = self.stack.len();
                if n > 0 {
                    let top = self.stack[n - 1].1;
                    proof {
                        assert(self@.stack[n - 1].1 == top);
                    }
                    set_entry_at(&mut self.dicts, top, key, XmlValue::Text(text));
                }
            },
            TreeEvent::Close => {
                let n = self.stack.len();
                if n > 0 {
                    proof {
                        assert(self@.stack[n - 1].1 < self@.dicts.len());
                    }
                    let (name, idx) = self.stack.remove(n - 1);
                    let parent = if n > 1 {
                        self.stack[n - 2].1
                    } else {
                        0
                    };
                    proof {
                        assert(self@.stack =~= b0.stack.drop_last());
                        if n > 1 {
                            assert(self@.stack[n - 2].1 == parent);
                        }
                    }
                    set_entry_at(&mut self.dicts, parent, name, XmlValue::Dict(idx));
                }
            },
        }
    }

    /// The finished tree.
    pub fn finish(self) -> (r: XmlTree)
        requires
            self.wf(),
        ensures
            dicts_view(r.dicts@) == self@.dicts,
            r.dicts@.len() >= 1,
    {
        XmlTree { dicts: self.dicts }
    }
}

/// Reads `content` into nested dictionaries: each element becomes a dictionary stored in its
/// parent (the root for a top-level one) under its `name` attribute or its tag, and each empty
/// element inside one becomes an entry from its `key` and `value` attributes.
pub fn xml_to_tree(content: &str) -> (r: Result<XmlTree, String>)
    ensures
        r matches Ok(t) ==> t.dicts@.len() >= 1,
        r matches Err(m) ==> exists|p: nat, e: Seq<char>| m@ == parse_error_text(p, e),
{
    let mut reader = reader_from_str(content);
    trim_text(&mut reader);
    let mut builder = XmlTreeBuilder::new();
    // every event but the last consumes at least one byte
    let mut fuel: usize = content.len();
    loop
        invariant
            builder.wf(),
        decreases fuel,
    {
        let ev = match read_event(&mut reader) {
            Ok(XmlEvent::Start(e)) => match attributes_of(&e) {
                Ok(attrs) => Some(TreeEvent::Open(element_name(tag_name(&e), &attrs))),
                Err(err) => {
                    return Err(parse_error_message(reader_position(&reader), &err));
                },
            },
            Ok(XmlEvent::Empty(e)) => if builder.depth() > 0 {
                match attributes_of(&e) {
                    Ok(attrs) => {
                        let (key, value) = entry_of(&attrs);
                        Some(TreeEvent::Entry(key, value))
                    },
                    Err(err) => {
                        return Err(parse_error_message(reader_position(&reader), &err));
                    },
                }
            } else {
                None
            },
            Ok(XmlEvent::End) => Some(TreeEvent::Close),
            Ok(XmlEvent::Eof) => {
                break ;
            },
            Ok(XmlEvent::Other) => None,
            Err(err) => {
                return Err(parse_error_message(reader_position(&reader), &err));
            },
        };
        if let Some(ev) = ev {
            builder.step(ev);
        }
        if fuel == 0 {
            break ;
        }
        fuel -= 1;
    }
    Ok(builder.finish())
}

} // verus!
