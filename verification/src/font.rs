//! Fonts of the library as the exported file defines them: which glyphs,
//! in which order, under which family name, with which layout; and the
//! closing of a glyph's outline so that it ends where it started.
//!
//! The outlines themselves are scaled with real numbers by the code that
//! writes the file.
use vstd::prelude::*;
use crate::text::{chars_of, ends_with, has_suffix};

verus! {

/// The metrics of a font face.
#[derive(Clone, Copy)]
pub struct FontMetrics {
    pub units_per_em: u16,
    pub ascender: i16,
    pub descender: i16,
    pub line_gap: i16,
    pub is_bold: bool,
    pub is_italic: bool,
}

/// A record of the font's name table: its name id, and the name if it is
/// stored as Unicode.
pub struct NameRecord {
    pub name_id: u16,
    pub name: Option<String>,
}

pub struct NameRecordView {
    pub name_id: u16,
    pub name: Option<Seq<char>>,
}

impl View for NameRecord {
    type V = NameRecordView;

    open spec fn view(&self) -> NameRecordView {
        NameRecordView {
            name_id: self.name_id,
            name: match self.name {
                Some(n) => Some(n@),
                None => None,
            },
        }
    }
}

pub open spec fn names_view(r: Seq<Option<NameRecord>>) -> Seq<Option<NameRecordView>> {
    r.map_values(
        |n: Option<NameRecord>|
            match n {
                Some(x) => Some(x@),
                None => None,
            },
    )
}

/// The name id of a font's family name.
pub const FAMILY_NAME_ID: u16 = 1;

/// What `ttf_parser` reads of the metrics of the font in these bytes, or
/// the message of why it cannot parse them.
pub uninterp spec fn face_metrics(data: Seq<u8>) -> Result<FontMetrics, Seq<char>>;

/// The records of the font's name table, by position; `None` for a record
/// whose name lies outside the table.
pub uninterp spec fn face_names(data: Seq<u8>) -> Seq<Option<NameRecordView>>;

/// The glyph of a character in the font, if it has one.
pub uninterp spec fn face_glyph(data: Seq<u8>, c: char) -> Option<u16>;

/// Parses a font with `ttf_parser::Face::parse` and reads its metrics.
/// Claimed: the result is `face_metrics` of the bytes, and the units per
/// em are between 16 and 16384, as `ttf_parser` documents.
#[verifier::external_body]
fn read_face_metrics(data: &Vec<u8>) -> (r: Result<FontMetrics, String>)
    ensures
        r matches Ok(m) ==> face_metrics(data@) is Ok && face_metrics(data@)->Ok_0 == m && 16
            <= m.units_per_em <= 16384,
        r matches Err(e) ==> face_metrics(data@) is Err && face_metrics(data@)->Err_0 == e@,
{
    let face = match ttf_parser::Face::parse(data.as_slice(), 0) {
        Ok(face) => face,
        Err(e) => return Err(e.to_string()),
    };
    Ok(FontMetrics {
        units_per_em: face.units_per_em(),
        ascender: face.ascender(),
        descender: face.descender(),
        line_gap: face.line_gap(),
        is_bold: face.is_bold(),
        is_italic: face.is_italic(),
    })
}

/// Reads the name table with `ttf_parser::name::Names::get`, record by
/// record. Claimed: the result is `face_names` of the bytes.
#[verifier::external_body]
fn read_face_names(data: &Vec<u8>) -> (r: Vec<Option<NameRecord>>)
    ensures
        names_view(r@) == face_names(data@),
{
    let names = match ttf_parser::Face::parse(data.as_slice(), 0) {
        Ok(face) => face.names(),
        Err(_) => return Vec::new(),
    };
    let mut records = Vec::new();
    for i in 0..names.len() {
        records.push(names.get(i).map(|n| NameRecord { name_id: n.name_id, name: n.to_string() }));
    }
    records
}

/// Looks a character up with `ttf_parser::Face::glyph_index`. Claimed: the
/// result is `face_glyph` of the bytes and the character.
#[verifier::external_body]
fn read_face_glyph(data: &Vec<u8>, c: char) -> (r: Option<u16>)
    ensures
        r == face_glyph(data@, c),
{
    match ttf_parser::Face::parse(data.as_slice(), 0) {
        Ok(face) => face.glyph_index(c).map(|g| g.0),
        Err(_) => None,
    }
}

/// The family name: the record at position 1 when it is the family's;
/// otherwise the first family record that the name table lists before a
/// record that cannot be read.
pub open spec fn family_record(names: Seq<Option<NameRecordView>>) -> Option<NameRecordView> {
    if names.len() > 1 && names[1] is Some && names[1]->0.name_id == FAMILY_NAME_ID {
        names[1]
    } else if names.len() > 1 && names[1] is Some {
        first_family(names, 0)
    } else {
        None
    }
}

/// The first family record from position `i` on, before a record that
/// cannot be read.
pub open spec fn first_family(names: Seq<Option<NameRecordView>>, i: int) -> Option<
    NameRecordView,
>
    decreases names.len() - i,
{
    if i < 0 || i >= names.len() || names[i] is None {
        None
    } else if names[i]->0.name_id == FAMILY_NAME_ID {
        names[i]
    } else {
        first_family(names, i + 1)
    }
}

/// Why a font cannot be exported.
pub enum FontError {
    /// the file is not a `.ttf` file: its name
    NotTtf(String),
    /// the font could not be parsed: the message
    Parse(String),
    /// the font has no glyph for the character
    MissingGlyph(char),
    /// the name table has no family name
    NoFamilyName,
    /// the family name is not stored as Unicode
    FamilyNameNotUnicode,
    /// the descender is the lowest 16-bit value, which cannot be negated
    DescenderOutOfRange,
}

/// The layout of a font on 1024 units per em: ascent, descent and leading.
pub open spec fn scaled(value: int, units_per_em: u16) -> int {
    value * 1024 / (units_per_em as int)
}

/// Integer division as Rust does it, rounding toward zero.
pub open spec fn div_toward_zero(a: int, b: int) -> int {
    if a >= 0 {
        a / b
    } else {
        -((-a) / b)
    }
}

/// A font as the exported file defines it, apart from its glyph outlines.
pub struct FontPlan {
    pub family: String,
    pub is_bold: bool,
    pub is_italic: bool,
    pub ascent: u16,
    pub descent: u16,
    pub leading: i16,
    /// the characters, in order, with their glyphs
    pub glyphs: Vec<(char, u16)>,
}

/// The characters in increasing order.
pub open spec fn sorted_chars(s: Seq<char>) -> bool {
    forall|i: int, j: int| 0 <= i < j < s.len() ==> (s[i] as u32) <= (s[j] as u32)
}

/// Sorts the characters by insertion.
fn sort_chars(chars: Vec<char>) -> (r: Vec<char>)
    ensures
        sorted_chars(r@),
        r@.to_multiset() == chars@.to_multiset(),
{
    let mut r: Vec<char> = Vec::new();
    let mut k: usize = 0;
    assert(chars@.take(0) =~= r@);
    while k < chars.len()
        invariant
            k <= chars.len(),
            sorted_chars(r@),
            r@.to_multiset() == chars@.take(k as int).to_multiset(),
        decreases chars.len() - k,
    {
        let c = chars[k];
        // the first position whose character is greater
        let mut p: usize = 0;
        while p < r.len() && (r[p] as u32) <= (c as u32)
            invariant
                p <= r.len(),
                forall|i: int| 0 <= i < p ==> (r@[i] as u32) <= (c as u32),
            decreases r.len() - p,
        {
            p = p + 1;
        }
        let ghost before = r@;
        r.insert(p, c);
        proof {
            broadcast use vstd::multiset::group_multiset_axioms;

            let a = before.subrange(0, p as int);
            let b = before.subrange(p as int, before.len() as int);
            assert(before =~= a + b);
            assert(r@ =~= a.push(c) + b);
            vstd::seq_lib::lemma_multiset_commutative(a.push(c), b);
            vstd::seq_lib::lemma_multiset_commutative(a, b);
            a.to_multiset_ensures();
            chars@.take(k as int).to_multiset_ensures();
            assert(chars@.take(k + 1) =~= chars@.take(k as int).push(c));
            assert(a.to_multiset().insert(c).add(b.to_multiset()) =~= a.to_multiset().add(
                b.to_multiset(),
            ).insert(c));
            assert forall|i: int, j: int| 0 <= i < j < r@.len() implies (r@[i] as u32) <= (
            r@[j] as u32) by {
                if p < before.len() {
                    assert((c as u32) < (before[p as int] as u32));
                }
            }
        }
        k = k + 1;
    }
    assert(chars@.take(k as int) =~= chars@);
    r
}

pub struct FontPlanView {
    pub family: Seq<char>,
    pub is_bold: bool,
    pub is_italic: bool,
    pub ascent: u16,
    pub descent: u16,
    pub leading: i16,
    pub glyphs: Seq<(char, u16)>,
}

impl View for FontPlan {
    type V = FontPlanView;

    open spec fn view(&self) -> FontPlanView {
        FontPlanView {
            family: self.family@,
            is_bold: self.is_bold,
            is_italic: self.is_italic,
            ascent: self.ascent,
            descent: self.descent,
            leading: self.leading,
            glyphs: self.glyphs@,
        }
    }
}

/// The characters of a font's glyphs.
pub open spec fn glyph_chars(g: Seq<(char, u16)>) -> Seq<char> {
    g.map_values(|x: (char, u16)| x.0)
}

/// A font file: its name ends in `.ttf` after at least one other character.
pub open spec fn is_ttf_name(name: Seq<char>) -> bool {
    let f = file_name_of(name);
    has_suffix(f, ".ttf"@) && f.len() > 4
}

/// How many characters end the path after its last `/`.
pub open spec fn last_piece_len(p: Seq<char>) -> nat
    decreases p.len(),
{
    if p.len() == 0 || p.last() == '/' {
        0
    } else {
        1 + last_piece_len(p.drop_last())
    }
}

/// The file name of a path whose parts `/` separates: its last part, with
/// empty parts and `.` parts passed over; empty where there is none.
pub open spec fn file_name_of(p: Seq<char>) -> Seq<char>
    decreases p.len(),
{
    if p.len() == 0 {
        Seq::empty()
    } else if p.last() == '/' {
        file_name_of(p.drop_last())
    } else {
        let n = last_piece_len(p);
        let piece = p.subrange(p.len() - n, p.len() as int);
        if piece == seq!['.'] {
            proof {
                lemma_last_piece_len_bound(p);
            }
            file_name_of(p.subrange(0, p.len() - n))
        } else {
            piece
        }
    }
}

/// The last part of a path is no longer than the path, and not empty where
/// the path ends in another character than `/`.
pub proof fn lemma_last_piece_len_bound(p: Seq<char>)
    ensures
        last_piece_len(p) <= p.len(),
        p.len() > 0 && p.last() != '/' ==> last_piece_len(p) >= 1,
    decreases p.len(),
{
    if p.len() > 0 && p.last() != '/' {
        lemma_last_piece_len_bound(p.drop_last());
    }
}

/// Where the file name of the first `end` characters of a path lies.
fn file_name_range(v: &Vec<char>, end: usize) -> (r: (usize, usize))
    requires
        end <= v.len(),
    ensures
        r.0 <= r.1 <= end,
        v@.subrange(r.0 as int, r.1 as int) == file_name_of(v@.take(end as int)),
    decreases end,
{
    if end == 0 {
        assert(v@.subrange(0, 0) =~= file_name_of(v@.take(0)));
        return (0, 0);
    }
    if v[end - 1] == '/' {
        assert(v@.take(end as int).drop_last() =~= v@.take(end - 1));
        return file_name_range(v, end - 1);
    }
    let ghost p = v@.take(end as int);
    let mut start = end;
    while start > 0 && v[start - 1] != '/'
        invariant
            start <= end <= v.len(),
            p == v@.take(end as int),
            last_piece_len(p) == (end - start) + last_piece_len(v@.take(start as int)),
        decreases start,
    {
        assert(v@.take(start as int).drop_last() =~= v@.take(start - 1));
        start = start - 1;
    }
    assert(last_piece_len(v@.take(start as int)) == 0);
    proof {
        lemma_last_piece_len_bound(p);
    }
    assert(p.subrange(p.len() - last_piece_len(p), p.len() as int) =~= v@.subrange(
        start as int,
        end as int,
    ));
    if end - start == 1 && v[start] == '.' {
        assert(v@.subrange(start as int, end as int) =~= seq!['.']);
        assert(p.subrange(0, p.len() - last_piece_len(p)) =~= v@.take(start as int));
        return file_name_range(v, start);
    }
    assert(v@.subrange(start as int, end as int) != seq!['.']) by {
        if v@.subrange(start as int, end as int) == seq!['.'] {
            assert(v@.subrange(start as int, end as int).len() == 1);
            assert(v@.subrange(start as int, end as int)[0] == '.');
        }
    }
    (start, end)
}

/// Whether a path names a `.ttf` file: its file name has the extension
/// `ttf`, after a stem that is not empty.
pub fn is_ttf_path(path: &String) -> (r: bool)
    ensures
        r == is_ttf_name(path@),
{
    let v = chars_of(path.as_str());
    let (a, b) = file_name_range(&v, v.len());
    assert(v@.take(v.len() as int) =~= path@);
    let ghost f = v@.subrange(a as int, b as int);
    if b - a <= 4 {
        return false;
    }
    let ok = v[b - 4] == '.' && v[b - 3] == 't' && v[b - 2] == 't' && v[b - 1] == 'f';
    proof {
        reveal_strlit(".ttf");
        let tail = f.subrange(f.len() - 4, f.len() as int);
        assert(tail[0] == v@[b - 4] && tail[1] == v@[b - 3] && tail[2] == v@[b - 2] && tail[3]
            == v@[b - 1]);
        if ok {
            assert(tail =~= ".ttf"@);
        }
    }
    ok
}

/// A `.ttf` file that parses, with a glyph for every character.
pub open spec fn glyphs_found(file_name: Seq<char>, data: Seq<u8>, chars: Seq<char>) -> bool {
    is_ttf_name(file_name) && face_metrics(data) is Ok && all_glyphs(data, chars)
}

/// Every character of the font has a glyph.
pub open spec fn all_glyphs(data: Seq<u8>, chars: Seq<char>) -> bool {
    forall|i: int| 0 <= i < chars.len() ==> face_glyph(data, #[trigger] chars[i]) is Some
}

/// The first character, in increasing order, without a glyph.
pub open spec fn first_missing_glyph(data: Seq<u8>, chars: Seq<char>, c: char) -> bool {
    &&& chars.contains(c)
    &&& face_glyph(data, c) is None
    &&& forall|i: int|
        0 <= i < chars.len() && (chars[i] as u32) < (c as u32) ==> face_glyph(
            data,
            #[trigger] chars[i],
        ) is Some
}

/// The layout numbers of a font scaled to 1024 units per em, cut to their
/// types as the file holds them.
pub open spec fn layout_ok(m: FontMetrics, p: FontPlanView) -> bool {
    &&& p.ascent == div_toward_zero(m.ascender * 1024, m.units_per_em as int) as u16
    &&& p.descent == div_toward_zero(-m.descender * 1024, m.units_per_em as int) as u16
    &&& p.leading == div_toward_zero(m.line_gap * 1024, m.units_per_em as int) as i16
}

fn scale_to_em(value: i32, units_per_em: u16) -> (r: i32)
    requires
        16 <= units_per_em,
        -32768 * 1024 <= value * 1024 <= 32768 * 1024,
    ensures
        r == div_toward_zero(value * 1024, units_per_em as int),
{
    let v = value * 1024;
    let u = units_per_em as i32;
    if v >= 0 {
        v / u
    } else {
        -((-v) / u)
    }
}

/// Plans a font of the library from its file name, the characters it is
/// to hold and the bytes of its file: the glyphs of the characters in
/// increasing order, the family name, bold and italic, and the layout.
pub fn font_plan(file_name: &String, characters: &String, data: &Vec<u8>) -> (r: Result<
    FontPlan,
    FontError,
>)
    ensures
        !is_ttf_name(file_name@) ==> (r matches Err(FontError::NotTtf(n)) && n == *file_name),
        is_ttf_name(file_name@) && face_metrics(data@) is Err ==> (r matches Err(
            FontError::Parse(m),
        ) && m@ == face_metrics(data@)->Err_0),
        r matches Err(FontError::MissingGlyph(c)) ==> first_missing_glyph(data@, characters@, c),
        is_ttf_name(file_name@) && face_metrics(data@) is Ok && !all_glyphs(data@, characters@)
            ==> r matches Err(FontError::MissingGlyph(_)),
        r matches Err(FontError::NoFamilyName) ==> family_record(face_names(data@)) is None,
        glyphs_found(file_name@, data@, characters@) && family_record(face_names(data@)) is None
            ==> r matches Err(FontError::NoFamilyName),
        glyphs_found(file_name@, data@, characters@) && family_record(face_names(data@)) is Some
            && face_metrics(data@)->Ok_0.descender == i16::MIN ==> r matches Err(
            FontError::DescenderOutOfRange,
        ),
        glyphs_found(file_name@, data@, characters@) && family_record(face_names(data@)) is Some
            && face_metrics(data@)->Ok_0.descender != i16::MIN && family_record(
            face_names(data@),
        )->0.name is None ==> r matches Err(FontError::FamilyNameNotUnicode),
        r matches Err(FontError::FamilyNameNotUnicode) ==> family_record(face_names(data@)) is Some
            && family_record(face_names(data@))->0.name is None,
        r matches Err(FontError::DescenderOutOfRange) ==> face_metrics(data@)->Ok_0.descender
            == i16::MIN,
        r is Ok <==> is_ttf_name(file_name@) && face_metrics(data@) is Ok && all_glyphs(
            data@,
            characters@,
        ) && family_record(face_names(data@)) is Some && family_record(face_names(data@))->0.name is Some
            && face_metrics(data@)->Ok_0.descender != i16::MIN,
        r matches Ok(p) ==> {
            let m = face_metrics(data@)->Ok_0;
            &&& p@.family == family_record(face_names(data@))->0.name->0
            &&& p.is_bold == m.is_bold
            &&& p.is_italic == m.is_italic
            &&& layout_ok(m, p@)
            &&& sorted_chars(glyph_chars(p@.glyphs))
            &&& glyph_chars(p@.glyphs).to_multiset()
                == characters@.to_multiset()
            &&& forall|i: int|
                0 <= i < p@.glyphs.len() ==> face_glyph(data@, #[trigger] p@.glyphs[i].0) == Some(
                    p@.glyphs[i].1,
                )
        },
{
    if !is_ttf_path(file_name) {
        return Err(FontError::NotTtf(file_name.clone()));
    }
    let metrics = match read_face_metrics(data) {
        Ok(m) => m,
        Err(message) => return Err(FontError::Parse(message)),
    };
    let ghost cs = characters@;
    let sorted = sort_chars(chars_of(characters.as_str()));
    proof {
        sorted@.to_multiset_ensures();
        cs.to_multiset_ensures();
    }
    let mut glyphs: Vec<(char, u16)> = Vec::new();
    let mut k: usize = 0;
    while k < sorted.len()
        invariant
            k <= sorted.len(),
            is_ttf_name(file_name@),
            face_metrics(data@) == Ok::<FontMetrics, Seq<char>>(metrics),
            cs == characters@,
            sorted_chars(sorted@),
            sorted@.to_multiset() == cs.to_multiset(),
            glyph_chars(glyphs@) == sorted@.take(k as int),
            forall|i: int|
                0 <= i < glyphs@.len() ==> face_glyph(data@, #[trigger] glyphs@[i].0) == Some(
                    glyphs@[i].1,
                ),
        decreases sorted.len() - k,
    {
        let c = sorted[k];
        let glyph = match read_face_glyph(data, c) {
            Some(g) => g,
            None => {
                proof {
                    lemma_first_missing(data@, cs, sorted@, glyphs@, k as int);
                }
                return Err(FontError::MissingGlyph(c));
            },
        };
        let ghost before = glyphs@;
        glyphs.push((c, glyph));
        assert(glyph_chars(glyphs@) =~= glyph_chars(before).push(c));
        assert(sorted@.take(k + 1) =~= sorted@.take(k as int).push(c));
        k = k + 1;
    }
    assert(sorted@.take(k as int) =~= sorted@);
    proof {
        lemma_all_glyphs(data@, cs, sorted@, glyphs@);
    }
    // the record at the family's id, or else the first family record
    let names = read_face_names(data);
    let ghost nv = names_view(names@);
    let family = if names.len() > 1 && names[1].is_some() {
        let first = names[1].as_ref().unwrap();
        assert(nv[1] == Some(first@));
        if first.name_id == FAMILY_NAME_ID {
            Some(first)
        } else {
            let mut found: Option<&NameRecord> = None;
            let mut i: usize = 0;
            while i < names.len()
                invariant_except_break
                    i <= names.len(),
                    found is None,
                    nv == names_view(names@),
                    first_family(nv, 0) == first_family(nv, i as int),
                invariant
                    nv == names_view(names@),
                ensures
                    found matches Some(n) ==> first_family(nv, 0) == Some(n@),
                    found is None ==> first_family(nv, 0) is None,
                decreases names.len() - i,
            {
                assert(nv[i as int] == match names@[i as int] {
                    Some(x) => Some(x@),
                    None => None,
                });
                match &names[i] {
                    None => break,
                    Some(n) => {
                        if n.name_id == FAMILY_NAME_ID {
                            found = Some(n);
                            break;
                        }
                    },
                }
                i = i + 1;
            }
            found
        }
    } else {
        None
    };
    assert(family matches Some(f) ==> family_record(nv) == Some(f@));
    assert(family is None ==> family_record(nv) is None);
    let family = match family {
        Some(f) => f,
        None => return Err(FontError::NoFamilyName),
    };
    if metrics.descender == i16::MIN {
        return Err(FontError::DescenderOutOfRange);
    }
    let family_name = match &family.name {
        Some(n) => n.clone(),
        None => return Err(FontError::FamilyNameNotUnicode),
    };
    let ascent = scale_to_em(metrics.ascender as i32, metrics.units_per_em) as u16;
    let descent = scale_to_em(-metrics.descender as i32, metrics.units_per_em) as u16;
    let leading = scale_to_em(metrics.line_gap as i32, metrics.units_per_em) as i16;
    Ok(
        FontPlan {
            family: family_name,
            is_bold: metrics.is_bold,
            is_italic: metrics.is_italic,
            ascent,
            descent,
            leading,
            glyphs,
        },
    )
}

proof fn lemma_first_missing(
    data: Seq<u8>,
    cs: Seq<char>,
    sorted: Seq<char>,
    glyphs: Seq<(char, u16)>,
    k: int,
)
    requires
        0 <= k < sorted.len(),
        sorted_chars(sorted),
        sorted.to_multiset() == cs.to_multiset(),
        glyph_chars(glyphs) == sorted.take(k),
        forall|i: int|
            0 <= i < glyphs.len() ==> face_glyph(data, #[trigger] glyphs[i].0) == Some(
                glyphs[i].1,
            ),
        face_glyph(data, sorted[k]) is None,
    ensures
        first_missing_glyph(data, cs, sorted[k]),
        !all_glyphs(data, cs),
{
    broadcast use vstd::multiset::group_multiset_axioms;

    sorted.to_multiset_ensures();
    cs.to_multiset_ensures();
    let c = sorted[k];
    assert(sorted.contains(c));
    assert(sorted.to_multiset().count(c) > 0);
    assert(cs.to_multiset().count(c) > 0);
    assert(cs.contains(c));
    let w = choose|w: int| 0 <= w < cs.len() && cs[w] == c;
    assert(face_glyph(data, cs[w]) is None);
    assert forall|i: int|
        0 <= i < cs.len() && (cs[i] as u32) < (c as u32) implies face_glyph(
        data,
        #[trigger] cs[i],
    ) is Some by {
        let d = cs[i];
        assert(cs.contains(d));
        assert(cs.to_multiset().count(d) > 0);
        assert(sorted.to_multiset().count(d) > 0);
        assert(sorted.contains(d));
        let j = choose|j: int| 0 <= j < sorted.len() && sorted[j] == d;
        if j >= k {
            assert((sorted[k] as u32) <= (sorted[j] as u32));
        }
        assert(j < k);
        assert(sorted.take(k)[j] == d);
        assert(glyph_chars(glyphs).len() == glyphs.len());
        assert(glyph_chars(glyphs)[j] == glyphs[j].0);
        assert(glyphs[j].0 == d);
        assert(face_glyph(data, glyphs[j].0) == Some(glyphs[j].1));
    }
}

proof fn lemma_all_glyphs(data: Seq<u8>, cs: Seq<char>, sorted: Seq<char>, glyphs: Seq<(char, u16)>)
    requires
        sorted.to_multiset() == cs.to_multiset(),
        glyph_chars(glyphs) == sorted,
        forall|i: int|
            0 <= i < glyphs.len() ==> face_glyph(data, #[trigger] glyphs[i].0) == Some(
                glyphs[i].1,
            ),
    ensures
        all_glyphs(data, cs),
{
    sorted.to_multiset_ensures();
    cs.to_multiset_ensures();
    assert forall|i: int| 0 <= i < cs.len() implies face_glyph(data, #[trigger] cs[i]) is Some by {
        let d = cs[i];
        assert(cs.contains(d));
        assert(cs.to_multiset().count(d) > 0);
        assert(sorted.to_multiset().count(d) > 0);
        assert(sorted.contains(d));
        let j = choose|j: int| 0 <= j < sorted.len() && sorted[j] == d;
        assert(glyph_chars(glyphs).len() == glyphs.len());
        assert(glyph_chars(glyphs)[j] == glyphs[j].0);
        assert(glyphs[j].0 == d);
        assert(face_glyph(data, glyphs[j].0) == Some(glyphs[j].1));
    }
}

/// A record of a glyph's outline, in twips.
#[derive(Clone, Copy, PartialEq, Eq, Structural)]
pub enum OutlineRecord {
    /// a move to a point, which starts a contour
    MoveTo { x: i32, y: i32 },
    LineBy { dx: i32, dy: i32 },
    /// a quadratic curve: to the control point, then from it to the anchor
    CurveBy { control_dx: i32, control_dy: i32, anchor_dx: i32, anchor_dy: i32 },
}

/// How far a record moves the pen, across and down.
pub open spec fn record_dx(r: OutlineRecord) -> int {
    match r {
        OutlineRecord::MoveTo { .. } => 0,
        OutlineRecord::LineBy { dx, .. } => dx as int,
        OutlineRecord::CurveBy { control_dx, anchor_dx, .. } => control_dx + anchor_dx,
    }
}

pub open spec fn record_dy(r: OutlineRecord) -> int {
    match r {
        OutlineRecord::MoveTo { .. } => 0,
        OutlineRecord::LineBy { dy, .. } => dy as int,
        OutlineRecord::CurveBy { control_dy, anchor_dy, .. } => control_dy + anchor_dy,
    }
}

/// How far the records move the pen, moves left out.
pub open spec fn total_dx(s: Seq<OutlineRecord>) -> int
    decreases s.len(),
{
    if s.len() == 0 {
        0
    } else {
        total_dx(s.drop_last()) + record_dx(s.last())
    }
}

pub open spec fn total_dy(s: Seq<OutlineRecord>) -> int
    decreases s.len(),
{
    if s.len() == 0 {
        0
    } else {
        total_dy(s.drop_last()) + record_dy(s.last())
    }
}

pub open spec fn fits_i32(x: int) -> bool {
    i32::MIN <= x <= i32::MAX
}

/// The sums that closing an outline adds up stay within 32 bits.
pub open spec fn outline_sums_fit(s: Seq<OutlineRecord>) -> bool {
    forall|k: int|
        0 <= k <= s.len() ==> fits_i32(total_dx(#[trigger] s.take(k))) && fits_i32(
            total_dy(s.take(k)),
        ) && (k < s.len() ==> fits_i32(record_dx(s[k])) && fits_i32(record_dy(s[k])))
}

/// Where the last edge of a record ends relative to its own start point:
/// the anchor, for a curve.
pub open spec fn end_dx(r: OutlineRecord) -> int {
    match r {
        OutlineRecord::LineBy { dx, .. } => dx as int,
        OutlineRecord::CurveBy { anchor_dx, .. } => anchor_dx as int,
        OutlineRecord::MoveTo { .. } => 0,
    }
}

pub open spec fn end_dy(r: OutlineRecord) -> int {
    match r {
        OutlineRecord::LineBy { dy, .. } => dy as int,
        OutlineRecord::CurveBy { anchor_dy, .. } => anchor_dy as int,
        OutlineRecord::MoveTo { .. } => 0,
    }
}

/// The last record, moved so that the outline ends where it started.
pub open spec fn closing_record(last: OutlineRecord, dx: int, dy: int) -> OutlineRecord {
    match last {
        OutlineRecord::LineBy { dx: x, dy: y } => OutlineRecord::LineBy {
            dx: (x - dx) as i32,
            dy: (y - dy) as i32,
        },
        OutlineRecord::CurveBy { control_dx, control_dy, anchor_dx, anchor_dy } =>
            OutlineRecord::CurveBy {
            control_dx,
            control_dy,
            anchor_dx: (anchor_dx - dx) as i32,
            anchor_dy: (anchor_dy - dy) as i32,
        },
        OutlineRecord::MoveTo { .. } => last,
    }
}

/// Ends the outline where it started: the points computed in real numbers
/// are off by their rounding, so the last edge takes up what the edges add
/// up to.
pub fn close_outline(records: &mut Vec<OutlineRecord>)
    requires
        old(records)@.len() > 0,
        !(old(records)@.last() is MoveTo),
        outline_sums_fit(old(records)@),
        fits_i32(end_dx(old(records)@.last()) - total_dx(old(records)@)),
        fits_i32(end_dy(old(records)@.last()) - total_dy(old(records)@)),
    ensures
        final(records)@ == old(records)@.drop_last().push(
            closing_record(
                old(records)@.last(),
                total_dx(old(records)@),
                total_dy(old(records)@),
            ),
        ),
{
    let mut dx: i32 = 0;
    let mut dy: i32 = 0;
    let mut k: usize = 0;
    while k < records.len()
        invariant
            k <= records.len(),
            records@ == old(records)@,
            outline_sums_fit(records@),
            dx == total_dx(records@.take(k as int)),
            dy == total_dy(records@.take(k as int)),
        decreases records.len() - k,
    {
        assert(records@.take(k + 1).drop_last() =~= records@.take(k as int));
        assert(fits_i32(total_dx(records@.take(k + 1))));
        assert(fits_i32(total_dy(records@.take(k + 1))));
        assert(fits_i32(record_dx(records@[k as int])));
        match records[k] {
            OutlineRecord::MoveTo { .. } => {},
            OutlineRecord::LineBy { dx: x, dy: y } => {
                dx = dx + x;
                dy = dy + y;
            },
            OutlineRecord::CurveBy { control_dx, control_dy, anchor_dx, anchor_dy } => {
                dx = dx + (control_dx + anchor_dx);
                dy = dy + (control_dy + anchor_dy);
            },
        }
        k = k + 1;
    }
    assert(records@.take(k as int) =~= records@);
    let n = records.len() - 1;
    let closed = match records[n] {
        OutlineRecord::LineBy { dx: x, dy: y } => OutlineRecord::LineBy { dx: x - dx, dy: y - dy },
        OutlineRecord::CurveBy { control_dx, control_dy, anchor_dx, anchor_dy } =>
            OutlineRecord::CurveBy {
            control_dx,
            control_dy,
            anchor_dx: anchor_dx - dx,
            anchor_dy: anchor_dy - dy,
        },
        OutlineRecord::MoveTo { x, y } => OutlineRecord::MoveTo { x, y },
    };
    records.set(n, closed);
    assert(records@ =~= old(records)@.drop_last().push(
        closing_record(old(records)@.last(), total_dx(old(records)@), total_dy(old(records)@)),
    ));
}

/// Closing an outline makes its edges add up to nothing: it ends where it
/// started.
pub proof fn lemma_closed_outline_returns(s: Seq<OutlineRecord>)
    requires
        s.len() > 0,
        !(s.last() is MoveTo),
        fits_i32(end_dx(s.last()) - total_dx(s)),
        fits_i32(end_dy(s.last()) - total_dy(s)),
    ensures
        ({
            let c = s.drop_last().push(closing_record(s.last(), total_dx(s), total_dy(s)));
            total_dx(c) == 0 && total_dy(c) == 0
        }),
{
    let c = s.drop_last().push(closing_record(s.last(), total_dx(s), total_dy(s)));
    assert(c.drop_last() =~= s.drop_last());
}

} // verus!
