//! The audit of module sources for a name that the embedded importer does
//! not set: `__file__`. The source is decoded first, by the encoding that
//! it declares for itself, since the name need not be spelt in ASCII bytes.

use vstd::prelude::*;
use crate::name_map::NameMap;
use crate::name_set::lemma_prefix_set_start;
use crate::name_set::lemma_prefix_set_step;
use crate::name_set::lemma_prefix_set_whole;
use crate::name_set::prefix_set;
use crate::name_set::NameSet;
use crate::packages::chars_of;
use crate::resource::BytecodeRequest;
use crate::resource::BytecodeRequestView;

verus! {

/// The classes of bytes that a declaration of an encoding is made of.
#[derive(Debug, Clone, Copy, PartialEq, Eq)]
pub enum ByteClass {
    /// Space, tab and form feed: what may stand before a comment.
    Blank,
    /// Space and tab: what may stand before the name of the encoding.
    Gap,
    /// Letters, digits, `-`, `_` and `.`: what the name is made of.
    Label,
    /// Every byte but the line feed.
    InLine,
}

/// Whether a byte is of a class.
pub open spec fn class_has(class: ByteClass, b: u8) -> bool {
    match class {
        ByteClass::Blank => b == 0x20 || b == 0x09 || b == 0x0c,
        ByteClass::Gap => b == 0x20 || b == 0x09,
        ByteClass::Label => b == 0x2d || b == 0x5f || b == 0x2e || (0x30 <= b <= 0x39) || (0x41
            <= b <= 0x5a) || (0x61 <= b <= 0x7a),
        ByteClass::InLine => b != 0x0a,
    }
}

/// Whether a byte is of a class.
pub fn in_class(class: ByteClass, b: u8) -> (r: bool)
    ensures
        r == class_has(class, b),
{
    match class {
        ByteClass::Blank => b == 0x20 || b == 0x09 || b == 0x0c,
        ByteClass::Gap => b == 0x20 || b == 0x09,
        ByteClass::Label => b == 0x2d || b == 0x5f || b == 0x2e || (0x30 <= b && b <= 0x39) || (
        0x41 <= b && b <= 0x5a) || (0x61 <= b && b <= 0x7a),
        ByteClass::InLine => b != 0x0a,
    }
}

/// The first place at or after `from` where no byte of the class stands.
pub open spec fn scan(bytes: Seq<u8>, from: int, class: ByteClass) -> int
    decreases bytes.len() - from,
{
    if 0 <= from < bytes.len() && class_has(class, bytes[from]) {
        scan(bytes, from + 1, class)
    } else {
        from
    }
}

/// A scan ends at or after its start, and within the bytes.
pub proof fn lemma_scan_bounds(bytes: Seq<u8>, from: int, class: ByteClass)
    requires
        0 <= from <= bytes.len(),
    ensures
        from <= scan(bytes, from, class) <= bytes.len(),
    decreases bytes.len() - from,
{
    if from < bytes.len() && class_has(class, bytes[from]) {
        lemma_scan_bounds(bytes, from + 1, class);
    }
}

/// The first place at or after `from` where no byte of the class stands.
pub fn scan_while(bytes: &Vec<u8>, from: usize, class: ByteClass) -> (end: usize)
    requires
        from <= bytes@.len(),
    ensures
        end == scan(bytes@, from as int, class),
        from <= end <= bytes@.len(),
{
    let n = bytes.len();
    let mut i: usize = from;
    while i < n && in_class(class, bytes[i])
        invariant
            from <= i <= n,
            n == bytes@.len(),
            scan(bytes@, from as int, class) == scan(bytes@, i as int, class),
        decreases n - i,
    {
        i += 1;
    }
    i
}

/// The bytes from one place up to another.
pub fn copy_range(bytes: &Vec<u8>, from: usize, to: usize) -> (copy: Vec<u8>)
    requires
        from <= to <= bytes@.len(),
    ensures
        copy@ == bytes@.subrange(from as int, to as int),
{
    let mut copy: Vec<u8> = Vec::new();
    let mut i: usize = from;
    while i < to
        invariant
            from <= i <= to,
            to <= bytes@.len(),
            copy@ == bytes@.subrange(from as int, i as int),
        decreases to - i,
    {
        copy.push(bytes[i]);
        proof {
            assert(copy@ =~= bytes@.subrange(from as int, i as int + 1));
        }
        i += 1;
    }
    copy
}

/// Whether an encoding is declared at place `k` of a line: there stand the
/// word `coding`, a colon or an equals sign, and after spaces and tabs, if
/// any, a byte that a name is made of.
pub open spec fn declares_at(line: Seq<u8>, k: int) -> bool {
    &&& 0 <= k
    &&& k + 6 < line.len()
    &&& line[k] == 0x63
    &&& line[k + 1] == 0x6f
    &&& line[k + 2] == 0x64
    &&& line[k + 3] == 0x69
    &&& line[k + 4] == 0x6e
    &&& line[k + 5] == 0x67
    &&& (line[k + 6] == 0x3a || line[k + 6] == 0x3d)
    &&& scan(line, k + 7, ByteClass::Gap) < line.len()
    &&& class_has(ByteClass::Label, line[scan(line, k + 7, ByteClass::Gap)])
}

/// The first place at or after `from` at which an encoding is declared.
pub open spec fn first_declaration(line: Seq<u8>, from: int) -> Option<int>
    decreases line.len() - from,
{
    if from < 0 || from >= line.len() {
        None
    } else if declares_at(line, from) {
        Some(from)
    } else {
        first_declaration(line, from + 1)
    }
}

/// The encoding that a line declares, if it declares one. The line has to
/// be a comment, with nothing but blanks before the `#`; the first
/// declaration in the comment counts, and the name goes as far as the bytes
/// that a name is made of.
pub open spec fn line_encoding(line: Seq<u8>) -> Option<Seq<u8>> {
    let c = scan(line, 0, ByteClass::Blank);
    if c < line.len() && line[c] == 0x23 {
        match first_declaration(line, c + 1) {
            Some(k) => {
                let m = scan(line, k + 7, ByteClass::Gap);
                Some(line.subrange(m, scan(line, m, ByteClass::Label)))
            },
            None => None,
        }
    } else {
        None
    }
}

/// The name by which UTF-8 is known.
pub open spec fn utf_8_label() -> Seq<u8> {
    seq![0x75u8, 0x74u8, 0x66u8, 0x2du8, 0x38u8]
}

/// The encoding that a Python source declares for itself: what its first
/// line declares, else what its second line declares, else UTF-8.
pub open spec fn source_encoding(source: Seq<u8>) -> Seq<u8> {
    let first_end = scan(source, 0, ByteClass::InLine);
    match line_encoding(source.subrange(0, first_end)) {
        Some(label) => label,
        None => if first_end < source.len() {
            let second_end = scan(source, first_end + 1, ByteClass::InLine);
            match line_encoding(source.subrange(first_end + 1, second_end)) {
                Some(label) => label,
                None => utf_8_label(),
            }
        } else {
            utf_8_label()
        },
    }
}

/// Whether an encoding is declared at place `k` of a line.
fn is_declared_at(line: &Vec<u8>, k: usize) -> (r: bool)
    requires
        k < line@.len(),
    ensures
        r == declares_at(line@, k as int),
{
    let n = line.len();
    if n - k < 7 {
        return false;
    }
    if !(line[k] == 0x63 && line[k + 1] == 0x6f && line[k + 2] == 0x64 && line[k + 3] == 0x69
        && line[k + 4] == 0x6e && line[k + 5] == 0x67) {
        return false;
    }
    if !(line[k + 6] == 0x3a || line[k + 6] == 0x3d) {
        return false;
    }
    let m = scan_while(line, k + 7, ByteClass::Gap);
    m < n && in_class(ByteClass::Label, line[m])
}

/// The first place at or after `from` at which an encoding is declared.
fn find_declaration(line: &Vec<u8>, from: usize) -> (r: Option<usize>)
    requires
        from <= line@.len(),
    ensures
        r is Some == first_declaration(line@, from as int) is Some,
        r is Some ==> r->0 == first_declaration(line@, from as int)->0 && declares_at(
            line@,
            r->0 as int,
        ),
{
    let n = line.len();
    let mut k: usize = from;
    while k < n
        invariant
            from <= k <= n,
            n == line@.len(),
            first_declaration(line@, from as int) == first_declaration(line@, k as int),
        decreases n - k,
    {
        if is_declared_at(line, k) {
            return Some(k);
        }
        k += 1;
    }
    None
}

/// The encoding that a line declares, if it declares one.
pub fn encoding_of_line(line: &Vec<u8>) -> (r: Option<Vec<u8>>)
    ensures
        r is Some == line_encoding(line@) is Some,
        r is Some ==> r->0@ == line_encoding(line@)->0,
{
    let n = line.len();
    let c = scan_while(line, 0, ByteClass::Blank);
    if c < n && line[c] == 0x23 {
        match find_declaration(line, c + 1) {
            Some(k) => {
                let m = scan_while(line, k + 7, ByteClass::Gap);
                let e = scan_while(line, m, ByteClass::Label);
                Some(copy_range(line, m, e))
            },
            None => None,
        }
    } else {
        None
    }
}

/// The name by which UTF-8 is known.
pub fn utf_8() -> (label: Vec<u8>)
    ensures
        label@ == utf_8_label(),
{
    let mut label: Vec<u8> = Vec::new();
    label.push(0x75);
    label.push(0x74);
    label.push(0x66);
    label.push(0x2d);
    label.push(0x38);
    proof {
        assert(label@ =~= utf_8_label());
    }
    label
}

/// The encoding that a Python source declares for itself.
pub fn python_source_encoding(source: &Vec<u8>) -> (label: Vec<u8>)
    ensures
        label@ == source_encoding(source@),
{
    let n = source.len();
    let first_end = scan_while(source, 0, ByteClass::InLine);
    let first = copy_range(source, 0, first_end);
    match encoding_of_line(&first) {
        Some(label) => label,
        None => {
            if first_end < n {
                let second_end = scan_while(source, first_end + 1, ByteClass::InLine);
                let second = copy_range(source, first_end + 1, second_end);
                match encoding_of_line(&second) {
                    Some(label) => label,
                    None => utf_8(),
                }
            } else {
                utf_8()
            }
        },
    }
}

/// Whether `label` is one of the names by which the Encoding Standard knows
/// an encoding.
pub uninterp spec fn known_label(label: Seq<u8>) -> bool;

/// The text that `source` decodes to under the encoding that `label` names.
/// A byte order mark at the start of the source overrides the label and is
/// left out of the text; what cannot be decoded becomes U+FFFD.
pub uninterp spec fn decoded_text(label: Seq<u8>, source: Seq<u8>) -> Seq<char>;

/// The longest source that is decoded: a sixteenth of what a `usize`
/// holds.
pub const MAX_DECODED_LENGTH: usize = usize::MAX / 16;

/// Calls `encoding_rs::Encoding::for_label` and says whether it found an
/// encoding. Claimed: the answer depends on the label alone, and `utf-8`
/// is found.
#[verifier::external_body]
fn label_is_known(label: &Vec<u8>) -> (known: bool)
    ensures
        known == known_label(label@),
        label@ == utf_8_label() ==> known,
{
    encoding_rs::Encoding::for_label(label.as_slice()).is_some()
}

/// Calls `encoding_rs::Encoding::decode` on the encoding that
/// `encoding_rs::Encoding::for_label` finds for `label`, and hands out the
/// characters of the text. Claimed: the text depends on the label and the
/// source alone. The call asks for a buffer of up to three bytes for each
/// byte of the source, and some more, and may ask for as much again: the
/// source is kept short enough for both together to be no more than a
/// buffer can be on the machine at hand.
#[verifier::external_body]
fn decode_as(label: &Vec<u8>, source: &Vec<u8>) -> (text: Vec<char>)
    requires
        known_label(label@),
        source@.len() <= MAX_DECODED_LENGTH,
    ensures
        text@ == decoded_text(label@, source@),
{
    let encoding = encoding_rs::Encoding::for_label(label.as_slice()).unwrap();
    encoding.decode(source.as_slice()).0.chars().collect()
}

/// The text of a Python source: decoded by the encoding that it declares,
/// or as UTF-8 where the declared name is none that is known.
pub open spec fn source_text(source: Seq<u8>) -> Seq<char> {
    let declared = source_encoding(source);
    if known_label(declared) {
        decoded_text(declared, source)
    } else {
        decoded_text(utf_8_label(), source)
    }
}

/// Whether `marker` occurs in `text`.
pub open spec fn occurs_in(marker: Seq<char>, text: Seq<char>) -> bool {
    exists|i: int|
        0 <= i && i + marker.len() <= text.len() && #[trigger] text.subrange(
            i,
            i + marker.len(),
        ) == marker
}

/// Whether `marker` occurs in `text`.
pub fn contains_text(text: &Vec<char>, marker: &Vec<char>) -> (found: bool)
    ensures
        found == occurs_in(marker@, text@),
{
    let n = text.len();
    let m = marker.len();
    if m > n {
        return false;
    }
    let last = n - m;
    let mut i: usize = 0;
    while i <= last
        invariant
            i <= last + 1,
            last == n - m,
            n == text@.len(),
            m == marker@.len(),
            m <= n,
            forall|k: int| 0 <= k < i ==> #[trigger] text@.subrange(k, k + m) != marker@,
        decreases last + 1 - i,
    {
        let mut j: usize = 0;
        while j < m && text[i + j] == marker[j]
            invariant
                j <= m,
                i + m <= n,
                n == text@.len(),
                m == marker@.len(),
                forall|k: int| 0 <= k < j ==> text@[i + k] == marker@[k],
            decreases m - j,
        {
            j += 1;
        }
        if j == m {
            proof {
                assert(text@.subrange(i as int, i + m) =~= marker@);
            }
            return true;
        }
        proof {
            assert(text@.subrange(i as int, i + m)[j as int] == text@[i + j]);
        }
        i += 1;
    }
    false
}

/// Whether a Python source names `__file__`. A source too long to be
/// decoded counts as one that does not.
pub open spec fn names_file_attribute(source: Seq<u8>) -> bool {
    source.len() <= MAX_DECODED_LENGTH && occurs_in("__file__"@, source_text(source))
}

/// Whether a Python source names `__file__`.
pub fn source_names_file_attribute(source: &Vec<u8>) -> (found: bool)
    ensures
        found == names_file_attribute(source@),
{
    if source.len() > MAX_DECODED_LENGTH {
        return false;
    }
    let declared = python_source_encoding(source);
    let text = if label_is_known(&declared) {
        decode_as(&declared, source)
    } else {
        let fallback = utf_8();
        if label_is_known(&fallback) {
            decode_as(&fallback, source)
        } else {
            Vec::new()
        }
    };
    let marker = chars_of("__file__");
    contains_text(&text, &marker)
}

/// The requested modules whose source names `__file__`.
pub open spec fn modules_naming_file_attribute(
    requests: Map<Seq<char>, BytecodeRequestView>,
) -> Set<Seq<char>> {
    Set::new(|k: Seq<char>| requests.contains_key(k) && names_file_attribute(requests[k].source))
}

/// The requested modules whose source names `__file__`.
pub fn audit_sources(requests: &NameMap<BytecodeRequest>) -> (found: NameSet)
    ensures
        found@ == modules_naming_file_attribute(requests@),
        found.well_formed(),
{
    let n = requests.len();
    let ghost names = requests.names();
    let mut found = NameSet::new();
    proof {
        lemma_prefix_set_start(names);
        assert(found@ =~= modules_naming_file_attribute(requests@).intersect(
            prefix_set(names, 0),
        ));
    }
    let mut i: usize = 0;
    while i < n
        invariant
            i <= n,
            n == names.len(),
            names == requests.names(),
            requests.items().len() == n,
            requests.well_formed(),
            found.well_formed(),
            found@ == modules_naming_file_attribute(requests@).intersect(
                prefix_set(names, i as int),
            ),
        decreases n - i,
    {
        let name = requests.name_at(i);
        let request = requests.item_at(i);
        if source_names_file_attribute(&request.source) {
            found.insert(name.clone());
        }
        proof {
            lemma_prefix_set_step(names, i as int);
            assert(found@ =~= modules_naming_file_attribute(requests@).intersect(
                prefix_set(names, i as int + 1),
            ));
        }
        i += 1;
    }
    proof {
        lemma_prefix_set_whole(names);
        requests.lemma_names();
        assert(found@ =~= modules_naming_file_attribute(requests@));
    }
    found
}

} // verus!
