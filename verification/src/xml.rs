use vstd::prelude::*;

use crate::json_value::JsonVal;
use crate::json_value::JsonValue;
use crate::json_value::entries_view;
use crate::json_value::lemma_obj_view;
use crate::problem_details::ProblemDetails;
use crate::problem_details::ProblemDetailsView;
use crate::strutil::dec_str;
use crate::strutil::dec_str_signed;
use crate::strutil::i64_to_string;
use crate::strutil::push_char;
use crate::strutil::u64_to_string;

verus! {

/// A character that may start an XML element name (the `NameStartChar`
/// ranges of the XML grammar).
pub open spec fn xml_name_start_char(c: char) -> bool {
    let n = c as u32;
    ||| n == 0x3A  // ':'
    ||| n == 0x5F  // '_'
    ||| (0x41 <= n && n <= 0x5A)
    ||| (0x61 <= n && n <= 0x7A)
    ||| (0xC0 <= n && n <= 0xD6)
    ||| (0xD8 <= n && n <= 0xF6)
    ||| (0xF8 <= n && n <= 0x2FF)
    ||| (0x370 <= n && n <= 0x37D)
    ||| (0x37F <= n && n <= 0x1FFF)
    ||| (0x200C <= n && n <= 0x200D)
    ||| (0x2070 <= n && n <= 0x218F)
    ||| (0x2C00 <= n && n <= 0x2FEF)
    ||| (0x3001 <= n && n <= 0xD7FF)
    ||| (0xF900 <= n && n <= 0xFDCF)
    ||| (0xFDF0 <= n && n <= 0xFFFD)
    ||| (0x10000 <= n && n <= 0xEFFFF)
}

/// A character that may continue an XML element name (the `NameChar` ranges
/// of the XML grammar).
pub open spec fn xml_name_char(c: char) -> bool {
    let n = c as u32;
    ||| xml_name_start_char(c)
    ||| n == 0x2D  // '-'
    ||| n == 0x2E  // '.'
    ||| (0x30 <= n && n <= 0x39)
    ||| n == 0xB7
    ||| (0x300 <= n && n <= 0x36F)
    ||| (0x203F <= n && n <= 0x2040)
}

/// A valid XML element name: non-empty, a name-start character followed by
/// name characters.
pub open spec fn xml_name_ok(s: Seq<char>) -> bool {
    &&& s.len() > 0
    &&& xml_name_start_char(s[0])
    &&& forall|i: int| 1 <= i < s.len() ==> xml_name_char(#[trigger] s[i])
}

/// What one character of text becomes inside an element: the five
/// markup-significant characters become entity references, every other
/// character stands as itself.
pub open spec fn xml_escape_char(c: char) -> Seq<char> {
    if c == '&' {
        "&amp;"@
    } else if c == '<' {
        "&lt;"@
    } else if c == '>' {
        "&gt;"@
    } else if c == '\'' {
        "&apos;"@
    } else if c == '"' {
        "&quot;"@
    } else {
        seq![c]
    }
}

/// Text with each character escaped for element content.
pub open spec fn xml_escaped(s: Seq<char>) -> Seq<char>
    decreases s.len(),
{
    if s.len() == 0 {
        Seq::empty()
    } else {
        xml_escaped(s.drop_last()) + xml_escape_char(s.last())
    }
}

/// An element with the given name and content.
#[verifier::opaque]
pub open spec fn xml_elem(name: Seq<char>, body: Seq<char>) -> Seq<char> {
    seq!['<'] + name + seq!['>'] + body + seq!['<', '/'] + name + seq!['>']
}

/// Whether a character may start an XML element name.
pub fn is_xml_name_start_char(c: char) -> (r: bool)
    ensures
        r == xml_name_start_char(c),
{
    let n = c as u32;
    n == 0x3A || n == 0x5F || (0x41 <= n && n <= 0x5A) || (0x61 <= n && n <= 0x7A) || (0xC0 <= n
        && n <= 0xD6) || (0xD8 <= n && n <= 0xF6) || (0xF8 <= n && n <= 0x2FF) || (0x370 <= n && n
        <= 0x37D) || (0x37F <= n && n <= 0x1FFF) || (0x200C <= n && n <= 0x200D) || (0x2070 <= n
        && n <= 0x218F) || (0x2C00 <= n && n <= 0x2FEF) || (0x3001 <= n && n <= 0xD7FF) || (0xF900
        <= n && n <= 0xFDCF) || (0xFDF0 <= n && n <= 0xFFFD) || (0x10000 <= n && n <= 0xEFFFF)
}

/// Whether a character may continue an XML element name.
pub fn is_xml_name_char(c: char) -> (r: bool)
    ensures
        r == xml_name_char(c),
{
    let n = c as u32;
    is_xml_name_start_char(c) || n == 0x2D || n == 0x2E || (0x30 <= n && n <= 0x39) || n == 0xB7
        || (0x300 <= n && n <= 0x36F) || (0x203F <= n && n <= 0x2040)
}

/// Whether a string is a valid XML element name.
pub fn is_xml_name(s: &str) -> (r: bool)
    ensures
        r == xml_name_ok(s@),
{
    let n = s.unicode_len();
    if n == 0 {
        return false;
    }
    if !is_xml_name_start_char(s.get_char(0)) {
        return false;
    }
    let mut i: usize = 1;
    while i < n
        invariant
            1 <= i <= n,
            n == s@.len(),
            xml_name_start_char(s@[0]),
            forall|j: int| 1 <= j < i ==> xml_name_char(#[trigger] s@[j]),
        decreases n - i,
    {
        if !is_xml_name_char(s.get_char(i)) {
            return false;
        }
        i += 1;
    }
    true
}

/// Appends text with each character escaped for element content.
pub fn append_escaped(out: &mut String, s: &str)
    ensures
        final(out)@ == old(out)@ + xml_escaped(s@),
{
    let n = s.unicode_len();
    let mut i: usize = 0;
    while i < n
        invariant
            i <= n,
            n == s@.len(),
            out@ == old(out)@ + xml_escaped(s@.take(i as int)),
        decreases n - i,
    {
        let c = s.get_char(i);
        if c == '&' {
            out.append("&amp;");
        } else if c == '<' {
            out.append("&lt;");
        } else if c == '>' {
            out.append("&gt;");
        } else if c == '\'' {
            out.append("&apos;");
        } else if c == '"' {
            out.append("&quot;");
        } else {
            push_char(out, c);
        }
        proof {
            assert(s@.take(i + 1).drop_last() =~= s@.take(i as int));
            assert(s@.take(i + 1).last() == s@[i as int]);
            assert(out@ =~= old(out)@ + xml_escaped(s@.take(i + 1)));
        }
        i += 1;
    }
    proof {
        assert(s@.take(n as int) =~= s@);
    }
}

/// Appends an opening tag.
pub fn append_open(out: &mut String, name: &str)
    ensures
        final(out)@ == old(out)@ + seq!['<'] + name@ + seq!['>'],
{
    push_char(out, '<');
    out.append(name);
    push_char(out, '>');
    proof {
        assert(out@ =~= old(out)@ + seq!['<'] + name@ + seq!['>']);
    }
}

/// Appends a closing tag.
pub fn append_close(out: &mut String, name: &str)
    ensures
        final(out)@ == old(out)@ + seq!['<', '/'] + name@ + seq!['>'],
{
    push_char(out, '<');
    push_char(out, '/');
    out.append(name);
    push_char(out, '>');
    proof {
        assert(out@ =~= old(out)@ + seq!['<', '/'] + name@ + seq!['>']);
    }
}

/// The shape of an XML encode failure.
#[verifier::ext_equal]
pub enum XmlErrorView {
    ExtensionsNotAnObject,
    InvalidElementName(Seq<char>),
}

/// Why a record could not be written as XML.
#[derive(Debug, PartialEq, Eq, Clone)]
pub enum XmlError {
    /// The extension payload is not an object, so its fields cannot become
    /// elements.
    ExtensionsNotAnObject,
    /// An extension field name is not a valid XML element name; carries the
    /// offending name.
    InvalidElementName(String),
}

impl View for XmlError {
    type V = XmlErrorView;

    open spec fn view(&self) -> XmlErrorView {
        match self {
            XmlError::ExtensionsNotAnObject => XmlErrorView::ExtensionsNotAnObject,
            XmlError::InvalidElementName(s) => XmlErrorView::InvalidElementName(s@),
        }
    }
}

impl XmlError {
    /// A human-readable description of the failure, naming the offending
    /// element name where there is one.
    pub fn message(&self) -> (r: String)
        ensures
            match self {
                XmlError::ExtensionsNotAnObject => r@
                    == "Could not write body: extensions are not an object"@,
                XmlError::InvalidElementName(s) => r@
                    == "Could not write body: invalid element name: "@ + s@,
            },
    {
        match self {
            XmlError::ExtensionsNotAnObject => String::from_str(
                "Could not write body: extensions are not an object",
            ),
            XmlError::InvalidElementName(s) => {
                let mut m = String::from_str("Could not write body: invalid element name: ");
                m.append(s.as_str());
                m
            },
        }
    }
}

/// What a value becomes under a given element name. A scalar becomes one
/// element holding its text (`true`/`false` for booleans, decimal digits
/// for integers, escaped text for strings, nothing for null); an array
/// becomes one element per item, all under the same name; an object becomes
/// one element whose children are its own entries.
pub open spec fn xml_of_entry(name: Seq<char>, v: JsonVal) -> Result<Seq<char>, XmlErrorView>
    decreases v, 1int,
    via xml_of_entry_decreases
{
    match v {
        JsonVal::Null => Ok(xml_elem(name, Seq::empty())),
        JsonVal::Bool(b) => Ok(
            xml_elem(
                name,
                if b {
                    "true"@
                } else {
                    "false"@
                },
            ),
        ),
        JsonVal::Int(i) => Ok(xml_elem(name, dec_str_signed(i))),
        JsonVal::Str(s) => Ok(xml_elem(name, xml_escaped(s))),
        JsonVal::Arr(items) => xml_of_items(name, items),
        JsonVal::Obj(entries) => match xml_of_entries(entries) {
            Ok(body) => Ok(xml_elem(name, body)),
            Err(e) => Err(e),
        },
    }
}

/// The items of an array, each as an element under the same name, in
/// order.
pub open spec fn xml_of_items(name: Seq<char>, items: Seq<JsonVal>) -> Result<
    Seq<char>,
    XmlErrorView,
>
    decreases items, 0int,
    via xml_of_items_decreases
{
    if items.len() == 0 {
        Ok(Seq::empty())
    } else {
        match xml_of_entry(name, items[0]) {
            Ok(t) => match xml_of_items(name, items.drop_first()) {
                Ok(rest) => Ok(t + rest),
                Err(e) => Err(e),
            },
            Err(e) => Err(e),
        }
    }
}

/// The entries of an object, each as an element named by its key, in
/// order; a key that is not a valid element name fails the whole encode,
/// naming the key.
pub open spec fn xml_of_entries(entries: Seq<(Seq<char>, JsonVal)>) -> Result<
    Seq<char>,
    XmlErrorView,
>
    decreases entries, 0int,
    via xml_of_entries_decreases
{
    if entries.len() == 0 {
        Ok(Seq::empty())
    } else if !xml_name_ok(entries[0].0) {
        Err(XmlErrorView::InvalidElementName(entries[0].0))
    } else {
        match xml_of_entry(entries[0].0, entries[0].1) {
            Ok(t) => match xml_of_entries(entries.drop_first()) {
                Ok(rest) => Ok(t + rest),
                Err(e) => Err(e),
            },
            Err(e) => Err(e),
        }
    }
}

#[via_fn]
proof fn xml_of_entry_decreases(name: Seq<char>, v: JsonVal) {
    match v {
        JsonVal::Arr(items) => {
            assert(decreases_to!(v => v->Arr_0));
        },
        JsonVal::Obj(entries) => {
            assert(decreases_to!(v => v->Obj_0));
        },
        _ => {},
    }
}

#[via_fn]
proof fn xml_of_items_decreases(name: Seq<char>, items: Seq<JsonVal>) {
    if items.len() > 0 {
        assert(decreases_to!(items => items[0]));
        assert(items.drop_first() == items.subrange(1, items.len() as int));
        assert(decreases_to!(items => items.subrange(1, items.len() as int)));
    }
}

#[via_fn]
proof fn xml_of_entries_decreases(entries: Seq<(Seq<char>, JsonVal)>) {
    if entries.len() > 0 {
        assert(decreases_to!(entries => entries[0]));
        assert(decreases_to!(entries[0] => entries[0].1));
        assert(entries.drop_first() == entries.subrange(1, entries.len() as int));
        assert(decreases_to!(entries => entries.subrange(1, entries.len() as int)));
    }
}

/// Writes one value as elements under the given name, as `xml_of_entry`
/// says; on failure the text already written is meaningless to the caller.
#[verifier::loop_isolation(false)]
#[verifier::rlimit(60)]
fn write_xml_entry(out: &mut String, name: &str, v: &JsonValue) -> (r: Result<(), XmlError>)
    ensures
        match r {
            Ok(_) => xml_of_entry(name@, v@) matches Ok(t) && final(out)@ == old(out)@ + t,
            Err(e) => xml_of_entry(name@, v@) == Err::<Seq<char>, XmlErrorView>(e@),
        },
    decreases v@, 1int,
{
    match v {
        JsonValue::Null => {
            append_open(out, name);
            append_close(out, name);
            proof {
                reveal(xml_elem);
                assert(out@ =~= old(out)@ + xml_elem(name@, Seq::<char>::empty()));
            }
            Ok(())
        },
        JsonValue::Bool(b) => {
            append_open(out, name);
            if *b {
                out.append("true");
            } else {
                out.append("false");
            }
            append_close(out, name);
            proof {
                reveal(xml_elem);
                assert(out@ =~= old(out)@ + xml_elem(
                    name@,
                    if *b {
                        "true"@
                    } else {
                        "false"@
                    },
                ));
            }
            Ok(())
        },
        JsonValue::Int(i) => {
            append_open(out, name);
            out.append(i64_to_string(*i).as_str());
            append_close(out, name);
            proof {
                reveal(xml_elem);
                assert(out@ =~= old(out)@ + xml_elem(name@, dec_str_signed(*i as int)));
            }
            Ok(())
        },
        JsonValue::Str(s) => {
            append_open(out, name);
            append_escaped(out, s.as_str());
            append_close(out, name);
            proof {
                reveal(xml_elem);
                assert(out@ =~= old(out)@ + xml_elem(name@, xml_escaped(s@)));
            }
            Ok(())
        },
        JsonValue::Arr(items) => {
            let ghost iv = v@->Arr_0;
            let ghost mut acc = Seq::<char>::empty();
            proof {
                assert(out@ =~= old(out)@ + acc);
                assert(iv.skip(0) =~= iv);
            }
            let mut idx: usize = 0;
            while idx < items.len()
                invariant
                    idx <= items.len(),
                    iv.len() == items.len(),
                    out@ == old(out)@ + acc,
                    match xml_of_items(name@, iv.skip(idx as int)) {
                        Ok(t) => xml_of_items(name@, iv) == Ok::<Seq<char>, XmlErrorView>(acc + t),
                        Err(e) => xml_of_items(name@, iv) == Err::<Seq<char>, XmlErrorView>(e),
                    },
                decreases items.len() - idx,
            {
                let ghost rest = iv.skip(idx as int);
                proof {
                    assert(rest[0] == iv[idx as int]);
                    assert(iv[idx as int] == items@[idx as int]@);
                    assert(rest.drop_first() =~= iv.skip(idx + 1));
                    assert(decreases_to!(v@ => v@->Arr_0));
                    assert(decreases_to!(v@->Arr_0 => v@->Arr_0[idx as int]));
                }
                match write_xml_entry(out, name, &items[idx]) {
                    Ok(_) => {
                        proof {
                            let t = xml_of_entry(name@, iv[idx as int])->Ok_0;
                            let acc_old = acc;
                            acc = acc + t;
                            match xml_of_items(name@, iv.skip(idx + 1)) {
                                Ok(rest2) => {
                                    assert((acc + rest2) =~= (acc_old + (t + rest2)));
                                },
                                Err(_) => {},
                            }
                        }
                    },
                    Err(e) => {
                        return Err(e);
                    },
                }
                idx += 1;
            }
            proof {
                assert(iv.skip(items.len() as int) =~= Seq::<JsonVal>::empty());
                assert(acc + Seq::<char>::empty() =~= acc);
            }
            Ok(())
        },
        JsonValue::Obj(entries) => {
            append_open(out, name);
            proof {
                lemma_obj_view(*entries);
                assert(decreases_to!(v@ => v@->Obj_0));
                assert(v@->Obj_0 == entries_view(entries@));
            }
            match write_xml_entries(out, entries) {
                Ok(_) => {},
                Err(e) => {
                    proof {
                        lemma_obj_view(*entries);
                    }
                    return Err(e);
                },
            }
            let ghost body = xml_of_entries(v@->Obj_0)->Ok_0;
            append_close(out, name);
            proof {
                reveal(xml_elem);
                lemma_obj_view(*entries);
                assert(v@->Obj_0 == entries_view(entries@));
                assert(out@ =~= old(out)@ + xml_elem(name@, body));
            }
            Ok(())
        },
    }
}

/// Writes an object's entries as sibling elements, as `xml_of_entries`
/// says; on failure the text already written is meaningless to the caller.
#[verifier::loop_isolation(false)]
#[verifier::rlimit(60)]
fn write_xml_entries(out: &mut String, entries: &Vec<(String, JsonValue)>) -> (r: Result<
    (),
    XmlError,
>)
    ensures
        match r {
            Ok(_) => xml_of_entries(entries_view(entries@)) matches Ok(t)
                && final(out)@ == old(out)@ + t,
            Err(e) => xml_of_entries(entries_view(entries@)) == Err::<
                Seq<char>,
                XmlErrorView,
            >(e@),
        },
    decreases entries_view(entries@), 0int,
{
    let ghost ev = entries_view(entries@);
    let ghost mut acc = Seq::<char>::empty();
    proof {
        assert(out@ =~= old(out)@ + acc);
        assert(ev.skip(0) =~= ev);
    }
    let mut idx: usize = 0;
    while idx < entries.len()
        invariant
            idx <= entries.len(),
            ev.len() == entries.len(),
            out@ == old(out)@ + acc,
            match xml_of_entries(ev.skip(idx as int)) {
                Ok(t) => xml_of_entries(ev) == Ok::<Seq<char>, XmlErrorView>(acc + t),
                Err(e) => xml_of_entries(ev) == Err::<Seq<char>, XmlErrorView>(e),
            },
        decreases entries.len() - idx,
    {
        let ghost rest = ev.skip(idx as int);
        proof {
            assert(rest[0] == ev[idx as int]);
            assert(ev[idx as int] == (entries@[idx as int].0@, entries@[idx as int].1@));
            assert(rest.drop_first() =~= ev.skip(idx + 1));
        }
        let k = &entries[idx].0;
        if !is_xml_name(k.as_str()) {
            return Err(XmlError::InvalidElementName(k.clone()));
        }
        proof {
            assert(decreases_to!(ev => ev[idx as int]));
            assert(decreases_to!(ev[idx as int] => ev[idx as int].1));
        }
        match write_xml_entry(out, k.as_str(), &entries[idx].1) {
            Ok(_) => {
                proof {
                    let t = xml_of_entry(ev[idx as int].0, ev[idx as int].1)->Ok_0;
                    let acc_old = acc;
                    acc = acc + t;
                    match xml_of_entries(ev.skip(idx + 1)) {
                        Ok(rest2) => {
                            assert((acc + rest2) =~= (acc_old + (t + rest2)));
                        },
                        Err(_) => {},
                    }
                }
            },
            Err(e) => {
                return Err(e);
            },
        }
        idx += 1;
    }
    proof {
        assert(ev.skip(entries.len() as int) =~= Seq::<(Seq<char>, JsonVal)>::empty());
        assert(acc + Seq::<char>::empty() =~= acc);
    }
    Ok(())
}

/// The declaration that opens every encoded document.
pub open spec fn xml_declaration() -> Seq<char> {
    "<?xml version=\"1.0\" encoding=\"UTF-8\"?>"@
}

/// The children of the root that come from the reserved fields: each
/// present field as one element under its literal name, in the fixed order
/// `type`, `status`, `title`, `detail`, `instance`; each absent field
/// contributes nothing at all.
pub open spec fn reserved_xml_children(v: ProblemDetailsView) -> Seq<char> {
    (match v.problem_type {
        Some(t) => xml_elem("type"@, xml_escaped(t)),
        None => Seq::<char>::empty(),
    }) + (match v.status {
        Some(n) => xml_elem("status"@, dec_str(n as nat)),
        None => Seq::<char>::empty(),
    }) + (match v.title {
        Some(t) => xml_elem("title"@, xml_escaped(t)),
        None => Seq::<char>::empty(),
    }) + (match v.detail {
        Some(d) => xml_elem("detail"@, xml_escaped(d)),
        None => Seq::<char>::empty(),
    }) + (match v.instance {
        Some(u) => xml_elem("instance"@, xml_escaped(u)),
        None => Seq::<char>::empty(),
    })
}

/// The content of the root element: the present reserved fields, then the
/// extension object's entries as sibling elements. Fails when the extension
/// payload is not an object, or when one of its field names cannot be an
/// element name.
pub open spec fn spec_xml_body(v: ProblemDetailsView) -> Result<Seq<char>, XmlErrorView> {
    if !(v.extensions is Obj) {
        Err(XmlErrorView::ExtensionsNotAnObject)
    } else {
        match xml_of_entries(v.extensions->Obj_0) {
            Ok(t) => Ok(reserved_xml_children(v) + t),
            Err(e) => Err(e),
        }
    }
}

/// The whole document: the declaration, immediately followed by the
/// `problem` root element.
pub open spec fn spec_xml_document(v: ProblemDetailsView) -> Result<Seq<char>, XmlErrorView> {
    match spec_xml_body(v) {
        Ok(b) => Ok(xml_declaration() + xml_elem("problem"@, b)),
        Err(e) => Err(e),
    }
}

/// Appends one element holding escaped text.
fn append_text_elem(out: &mut String, name: &str, text: &str)
    ensures
        final(out)@ == old(out)@ + xml_elem(name@, xml_escaped(text@)),
{
    append_open(out, name);
    append_escaped(out, text);
    append_close(out, name);
    proof {
        reveal(xml_elem);
        assert(out@ =~= old(out)@ + xml_elem(name@, xml_escaped(text@)));
    }
}

/// Appends one element holding the given text as it stands.
fn append_raw_elem(out: &mut String, name: &str, raw: &str)
    ensures
        final(out)@ == old(out)@ + xml_elem(name@, raw@),
{
    append_open(out, name);
    out.append(raw);
    append_close(out, name);
    proof {
        reveal(xml_elem);
        assert(out@ =~= old(out)@ + xml_elem(name@, raw@));
    }
}

/// Appends each present reserved field as one element, in the fixed order.
fn append_reserved_children(out: &mut String, pd: &ProblemDetails)
    ensures
        final(out)@ == old(out)@ + reserved_xml_children(pd@),
{
    match &pd.problem_type {
        Some(t) => append_text_elem(out, "type", t.as_str()),
        None => {},
    }
    let ghost s1 = out@;
    proof {
        assert(s1 =~= old(out)@ + (match pd@.problem_type {
            Some(t) => xml_elem("type"@, xml_escaped(t)),
            None => Seq::<char>::empty(),
        }));
    }
    match &pd.status {
        Some(st) => append_raw_elem(out, "status", u64_to_string(
            st.as_u16() as u64,
        ).as_str()),
        None => {},
    }
    let ghost s2 = out@;
    proof {
        assert(s2 =~= s1 + (match pd@.status {
            Some(n) => xml_elem("status"@, dec_str(n as nat)),
            None => Seq::<char>::empty(),
        }));
    }
    match &pd.title {
        Some(t) => append_text_elem(out, "title", t.as_str()),
        None => {},
    }
    let ghost s3 = out@;
    proof {
        assert(s3 =~= s2 + (match pd@.title {
            Some(t) => xml_elem("title"@, xml_escaped(t)),
            None => Seq::<char>::empty(),
        }));
    }
    match &pd.detail {
        Some(d) => append_text_elem(out, "detail", d.as_str()),
        None => {},
    }
    let ghost s4 = out@;
    proof {
        assert(s4 =~= s3 + (match pd@.detail {
            Some(d) => xml_elem("detail"@, xml_escaped(d)),
            None => Seq::<char>::empty(),
        }));
    }
    match &pd.instance {
        Some(u) => append_text_elem(out, "instance", u.as_str()),
        None => {},
    }
    proof {
        assert(out@ =~= s4 + (match pd@.instance {
            Some(u) => xml_elem("instance"@, xml_escaped(u)),
            None => Seq::<char>::empty(),
        }));
        assert(out@ =~= old(out)@ + reserved_xml_children(pd@));
    }
}

/// A record paired with the XML encoding: what response builders use when
/// the body is to be `application/problem+xml`.
#[derive(Debug)]
pub struct XmlProblemDetails(pub ProblemDetails);

impl XmlProblemDetails {
    /// The content type of an XML problem details body.
    pub const CONTENT_TYPE: &'static str = "application/problem+xml";

    /// Wraps a record for XML encoding.
    pub fn new(details: ProblemDetails) -> (r: XmlProblemDetails)
        ensures
            r.0@ == details@,
    {
        XmlProblemDetails(details)
    }

    /// The wrapped record.
    pub fn into_details(self) -> (r: ProblemDetails)
        ensures
            r@ == self.0@,
    {
        self.0
    }

    /// Writes the record as an XML document suitable for a response body:
    /// the declaration, then a `problem` root holding each present reserved
    /// field as an element in fixed order, then the extension fields as
    /// sibling elements. Fails with `ExtensionsNotAnObject` exactly when the
    /// extension payload is not an object, and with `InvalidElementName`
    /// exactly when an extension field name cannot be an element name.
    #[verifier::loop_isolation(false)]
    #[verifier::rlimit(100)]
    pub fn to_body_string(&self) -> (r: Result<String, XmlError>)
        ensures
            match r {
                Ok(s) => spec_xml_document(self.0@) == Ok::<Seq<char>, XmlErrorView>(s@),
                Err(e) => spec_xml_document(self.0@) == Err::<Seq<char>, XmlErrorView>(e@),
            },
    {
        let ext: &Vec<(String, JsonValue)> = match &self.0.extensions {
            JsonValue::Obj(ext) => ext,
            _ => {
                return Err(XmlError::ExtensionsNotAnObject);
            },
        };
        proof {
            lemma_obj_view(*ext);
            assert(self.0.extensions == JsonValue::Obj(*ext));
            assert(self.0@.extensions->Obj_0 == entries_view(ext@));
        }
        let mut out = String::from_str("<?xml version=\"1.0\" encoding=\"UTF-8\"?>");
        append_open(&mut out, "problem");
        append_reserved_children(&mut out, &self.0);
        proof {
            assert(out@ =~= xml_declaration() + (seq!['<'] + "problem"@ + seq!['>'])
                + reserved_xml_children(self.0@));
        }
        match write_xml_entries(&mut out, ext) {
            Ok(_) => {},
            Err(e) => {
                return Err(e);
            },
        }
        let ghost ext_text = xml_of_entries(self.0@.extensions->Obj_0)->Ok_0;
        append_close(&mut out, "problem");
        proof {
            reveal(xml_elem);
            assert(out@ =~= xml_declaration() + xml_elem(
                "problem"@,
                reserved_xml_children(self.0@) + ext_text,
            ));
        }
        Ok(out)
    }
}

impl Clone for XmlProblemDetails {
    fn clone(&self) -> (r: XmlProblemDetails)
        ensures
            r.0@ == self.0@,
    {
        XmlProblemDetails(self.0.clone())
    }
}

} // verus!
