//! Localisation of the admin web UI: the supported languages, how a
//! browser locale or an `Accept-Language` header picks one, and lookups in a
//! message catalog that fall back to English and then to the key itself.

use vstd::prelude::*;
use crate::identification::{spec_to_lowercase, to_lowercase};
use vstd::utf8::encode_utf8;
use vstd::string::StringSliceAdditionalSpecFns;
use crate::text::{
    assoc, chars_of, concat_chars, eq_ignore_ascii_case, eq_ignore_ascii_case_spec, has_prefix,
    lemma_assoc_end, lemma_assoc_hit, lemma_assoc_step, owned, prefix_before, replace_chars,
    replace_spec, seq_eq, split_chars, split_on, str_eq, string_of, strip_prefix,
    strip_prefix_spec, take_until, trim_chars, trim_spec,
};

verus! {

/// The supported language codes, in display order.
pub open spec fn spec_supported_langs() -> Seq<Seq<char>> {
    seq![
        "en"@, "zh"@, "zh-tw"@, "ja"@, "ko"@, "es"@, "pt-br"@, "fr"@, "de"@, "ru"@, "ar"@,
        "he"@, "pl"@, "cs"@, "nl"@, "tr"@, "uk"@, "vi"@, "id"@, "th"@, "hi"@, "bn"@, "ro"@,
        "sv"@, "ur"@, "it"@, "el"@, "hu"@, "fi"@, "da"@, "no"@,
    ]
}

/// Language code → native name, for the language menu.
pub open spec fn spec_native_names() -> Seq<(Seq<char>, Seq<char>)> {
    seq![
        ("en"@, "English"@), ("zh"@, "中文"@), ("zh-tw"@, "繁體中文"@), ("ja"@, "日本語"@),
        ("ko"@, "한국어"@), ("es"@, "Español"@), ("pt-br"@, "Português (BR)"@),
        ("fr"@, "Français"@), ("de"@, "Deutsch"@), ("ru"@, "Русский"@), ("ar"@, "العربية"@),
        ("he"@, "עברית"@), ("pl"@, "Polski"@), ("cs"@, "Čeština"@), ("nl"@, "Nederlands"@),
        ("tr"@, "Türkçe"@), ("uk"@, "Українська"@), ("vi"@, "Tiếng Việt"@),
        ("id"@, "Bahasa Indonesia"@), ("th"@, "ไทย"@), ("hi"@, "हिन्दी"@), ("bn"@, "বাংলা"@),
        ("ro"@, "Română"@), ("sv"@, "Svenska"@), ("ur"@, "اردو"@), ("it"@, "Italiano"@),
        ("el"@, "Ελληνικά"@), ("hu"@, "Magyar"@), ("fi"@, "Suomi"@), ("da"@, "Dansk"@),
        ("no"@, "Norsk"@),
    ]
}

pub open spec fn is_supported(lang: Seq<char>) -> bool {
    spec_supported_langs().contains(lang)
}

/// A supported language, with English standing in for any other input.
pub open spec fn spec_lang_to_static(lang: Seq<char>) -> Seq<char> {
    if is_supported(lang) {
        lang
    } else {
        "en"@
    }
}

pub open spec fn spec_is_rtl(lang: Seq<char>) -> bool {
    lang == "ar"@ || lang == "he"@ || lang == "ur"@
}

/// The native name of a language; an unknown code is its own name.
pub open spec fn spec_native_name(lang: Seq<char>) -> Seq<char> {
    match assoc(spec_native_names(), lang) {
        Some(n) => n,
        None => lang,
    }
}

/// The native name shown for a page language: from the table, or the code
/// that `spec_lang_to_static` gives when the table has none.
pub open spec fn spec_page_native_name(lang: Seq<char>) -> Seq<char> {
    match assoc(spec_native_names(), lang) {
        Some(n) => n,
        None => spec_lang_to_static(lang),
    }
}

/// The supported language codes, in display order.
pub fn supported_langs() -> (v: Vec<&'static str>)
    ensures
        v@.map_values(|s: &'static str| s@) == spec_supported_langs(),
{
    let v = vec![
        "en", "zh", "zh-tw", "ja", "ko", "es", "pt-br", "fr", "de", "ru", "ar", "he", "pl", "cs",
        "nl", "tr", "uk", "vi", "id", "th", "hi", "bn", "ro", "sv", "ur", "it", "el", "hu", "fi",
        "da", "no",
    ];
    assert(v@.map_values(|s: &'static str| s@) =~= spec_supported_langs());
    v
}

/// Language code → native name, in display order.
pub fn native_names() -> (v: Vec<(&'static str, &'static str)>)
    ensures
        v@.map_values(|p: (&'static str, &'static str)| (p.0@, p.1@)) == spec_native_names(),
{
    let v = vec![
        ("en", "English"),
        ("zh", "中文"),
        ("zh-tw", "繁體中文"),
        ("ja", "日本語"),
        ("ko", "한국어"),
        ("es", "Español"),
        ("pt-br", "Português (BR)"),
        ("fr", "Français"),
        ("de", "Deutsch"),
        ("ru", "Русский"),
        ("ar", "العربية"),
        ("he", "עברית"),
        ("pl", "Polski"),
        ("cs", "Čeština"),
        ("nl", "Nederlands"),
        ("tr", "Türkçe"),
        ("uk", "Українська"),
        ("vi", "Tiếng Việt"),
        ("id", "Bahasa Indonesia"),
        ("th", "ไทย"),
        ("hi", "हिन्दी"),
        ("bn", "বাংলা"),
        ("ro", "Română"),
        ("sv", "Svenska"),
        ("ur", "اردو"),
        ("it", "Italiano"),
        ("el", "Ελληνικά"),
        ("hu", "Magyar"),
        ("fi", "Suomi"),
        ("da", "Dansk"),
        ("no", "Norsk"),
    ];
    assert(v@.map_values(|p: (&'static str, &'static str)| (p.0@, p.1@)) =~= spec_native_names());
    v
}

/// The supported code equal to `v`, if any.
fn find_supported(v: &Vec<char>) -> (r: Option<&'static str>)
    ensures
        r is Some <==> is_supported(v@),
        r matches Some(l) ==> l@ == v@,
{
    let langs = supported_langs();
    let ghost specs = spec_supported_langs();
    let mut i: usize = 0;
    while i < langs.len()
        invariant
            i <= langs.len(),
            langs@.map_values(|s: &'static str| s@) == specs,
            specs == spec_supported_langs(),
            forall|j: int| 0 <= j < i ==> specs[j] != v@,
        decreases langs.len() - i,
    {
        let l = langs[i];
        let lc = chars_of(l);
        assert(specs[i as int] == l@);
        if seq_eq(&lc, v) {
            assert(specs.contains(v@));
            return Some(l);
        }
        i = i + 1;
    }
    assert(!specs.contains(v@)) by {
        if specs.contains(v@) {
            let j = choose|j: int| 0 <= j < specs.len() && specs[j] == v@;
            assert(specs[j] != v@);
        }
    }
    None
}

/// Whether the language is written right to left.
pub fn is_rtl(lang: &str) -> (r: bool)
    ensures
        r == spec_is_rtl(lang@),
{
    str_eq(lang, "ar") || str_eq(lang, "he") || str_eq(lang, "ur")
}

/// The supported code equal to `lang`, or `en`.
pub fn lang_to_static(lang: &str) -> (r: &'static str)
    ensures
        r@ == spec_lang_to_static(lang@),
{
    let v = chars_of(lang);
    match find_supported(&v) {
        Some(l) => l,
        None => "en",
    }
}

/// The native name of `lang`, e.g. `中文` for `zh`; an unknown code comes
/// back as given.
pub fn native_name(lang: &str) -> (r: String)
    ensures
        r@ == spec_native_name(lang@),
{
    match table_native_name(lang) {
        Some(n) => owned(n),
        None => owned(lang),
    }
}

/// The native name of a page language (see `spec_page_native_name`).
fn page_native_name(lang: &str) -> (r: &'static str)
    ensures
        r@ == spec_page_native_name(lang@),
{
    match table_native_name(lang) {
        Some(n) => n,
        None => lang_to_static(lang),
    }
}

/// The table's native name of `lang`, if it has one.
fn table_native_name(lang: &str) -> (r: Option<&'static str>)
    ensures
        match assoc(spec_native_names(), lang@) {
            Some(n) => r matches Some(x) && x@ == n,
            None => r is None,
        },
{
    let names = native_names();
    let ghost ps = spec_native_names();
    let mut i: usize = 0;
    proof {
        assert(ps.skip(0) =~= ps);
    }
    while i < names.len()
        invariant
            i <= names.len(),
            names@.map_values(|p: (&'static str, &'static str)| (p.0@, p.1@)) == ps,
            ps == spec_native_names(),
            assoc(ps, lang@) == assoc(ps.skip(i as int), lang@),
        decreases names.len() - i,
    {
        let (code, name) = names[i];
        assert(ps[i as int] == (code@, name@));
        if str_eq(code, lang) {
            proof {
                lemma_assoc_hit(ps, i as int, lang@);
            }
            return Some(name);
        }
        proof {
            lemma_assoc_step(ps, i as int, lang@);
        }
        i = i + 1;
    }
    proof {
        lemma_assoc_end(ps, lang@);
    }
    None
}

/// The supported language for a browser locale such as `zh-CN` or `pt-PT`:
/// the exact code, else its primary subtag, else `pt`→`pt-br`, `iw`→`he`,
/// `in`→`id`, else `en`; matching is done on the lowercased input.
pub open spec fn spec_match_browser_lang(input: Seq<char>) -> Seq<char> {
    if input.len() == 0 {
        "en"@
    } else {
        let lower = spec_to_lowercase(input);
        if is_supported(lower) {
            lower
        } else {
            let main = prefix_before(lower, '-');
            if is_supported(main) {
                main
            } else if main == "pt"@ {
                "pt-br"@
            } else if main == "iw"@ {
                "he"@
            } else if main == "in"@ {
                "id"@
            } else {
                "en"@
            }
        }
    }
}

/// Matches a browser locale to a supported language (see
/// `spec_match_browser_lang`).
pub fn match_browser_lang(input: &str) -> (r: &'static str)
    ensures
        r@ == spec_match_browser_lang(input@),
{
    if input.is_empty() {
        return "en";
    }
    let lower = to_lowercase(input);
    let lc = chars_of(lower.as_str());
    if let Some(l) = find_supported(&lc) {
        return l;
    }
    let (main, _) = take_until(&lc, '-');
    if let Some(l) = find_supported(&main) {
        return l;
    }
    let main_s = string_of(&main);
    let m = main_s.as_str();
    if str_eq(m, "pt") {
        "pt-br"
    } else if str_eq(m, "iw") {
        "he"
    } else if str_eq(m, "in") {
        "id"
    } else {
        "en"
    }
}

/// The value of an ASCII digit.
pub open spec fn digit_value(c: char) -> int {
    c as int - 48
}

pub open spec fn is_digit_char(c: char) -> bool {
    '0' <= c && c <= '9'
}

/// Up to three decimal digits after the point, in thousandths.
pub open spec fn thousandths(d: Seq<char>) -> int {
    (if d.len() > 0 { digit_value(d[0]) * 100 } else { 0 }) + (if d.len() > 1 {
        digit_value(d[1]) * 10
    } else {
        0
    }) + (if d.len() > 2 { digit_value(d[2]) } else { 0 })
}

/// A `q` value (`0`, `0.` and up to three digits, `1`, or `1.` and up to
/// three zeros) in thousandths; `None` when malformed.
pub open spec fn spec_qvalue(v: Seq<char>) -> Option<int> {
    if v.len() == 0 || v.len() > 5 {
        None
    } else if v[0] == '1' {
        if v.len() == 1 || (v[1] == '.' && forall|k: int| 2 <= k < v.len() ==> v[k] == '0') {
            Some(1000)
        } else {
            None
        }
    } else if v[0] == '0' {
        if v.len() == 1 {
            Some(0)
        } else if v[1] == '.' && forall|k: int| 2 <= k < v.len() ==> is_digit_char(v[k]) {
            Some(thousandths(v.skip(2)))
        } else {
            None
        }
    } else {
        None
    }
}

/// The weight that the parameters of an entry give it: the first
/// parameter of the form `q=<value>` decides, and an entry without one
/// weighs 1 (1000 thousandths).
pub open spec fn spec_param_q(ps: Seq<Seq<char>>) -> Option<int>
    decreases ps.len(),
{
    if ps.len() == 0 {
        Some(1000)
    } else {
        let t = trim_spec(ps[0]);
        if t.len() >= 2 && (t[0] == 'q' || t[0] == 'Q') && t[1] == '=' {
            spec_qvalue(t.skip(2))
        } else {
            spec_param_q(ps.skip(1))
        }
    }
}

/// What an `Accept-Language` entry offers: the supported language its tag
/// (text before `;`, trimmed, non-empty) matches, other than the fallback
/// unless the tag is `en` itself up to ASCII case, and its weight, which
/// must be well-formed and above zero.
pub open spec fn spec_accept_candidate(e: Seq<char>) -> Option<(Seq<char>, int)> {
    let tag = trim_spec(prefix_before(e, ';'));
    if tag.len() == 0 {
        None
    } else {
        let m = spec_match_browser_lang(tag);
        if m != "en"@ || eq_ignore_ascii_case_spec(tag, "en"@) {
            match spec_param_q(split_on(e, ';').skip(1)) {
                Some(w) => if w > 0 {
                    Some((m, w))
                } else {
                    None
                },
                None => None,
            }
        } else {
            None
        }
    }
}

/// The best candidate among entries: the highest weight, the earliest
/// entry among equal weights.
pub open spec fn spec_best_candidate(es: Seq<Seq<char>>) -> Option<(Seq<char>, int)>
    decreases es.len(),
{
    if es.len() == 0 {
        None
    } else {
        let prev = spec_best_candidate(es.drop_last());
        match spec_accept_candidate(es.last()) {
            Some(c) => match prev {
                Some(b) => if c.1 > b.1 {
                    Some(c)
                } else {
                    Some(b)
                },
                None => Some(c),
            },
            None => prev,
        }
    }
}

/// The language an `Accept-Language` entry list selects: that of the best
/// candidate, `en` when there is none.
pub open spec fn spec_pick_entries(es: Seq<Seq<char>>) -> Seq<char> {
    match spec_best_candidate(es) {
        Some(c) => c.0,
        None => "en"@,
    }
}

pub open spec fn spec_pick_from_accept_language(header: Seq<char>) -> Seq<char> {
    spec_pick_entries(split_on(header, ','))
}

fn qvalue(v: &Vec<char>) -> (r: Option<u32>)
    ensures
        match spec_qvalue(v@) {
            Some(w) => r matches Some(x) && x == w,
            None => r is None,
        },
{
    let n = v.len();
    if n == 0 || n > 5 {
        return None;
    }
    if v[0] == '1' {
        if n == 1 {
            return Some(1000);
        }
        if v[1] != '.' {
            return None;
        }
        let mut k: usize = 2;
        while k < n
            invariant
                2 <= k <= n <= 5,
                n == v.len(),
                v@[0] == '1',
                v@[1] == '.',
                forall|j: int| 2 <= j < k ==> v@[j] == '0',
            decreases n - k,
        {
            if v[k] != '0' {
                proof {
                    assert(v@[k as int] != '0');
                }
                return None;
            }
            k = k + 1;
        }
        Some(1000)
    } else if v[0] == '0' {
        if n == 1 {
            return Some(0);
        }
        if v[1] != '.' {
            return None;
        }
        let mut k: usize = 2;
        let mut acc: u32 = 0;
        let ghost d = v@.skip(2);
        while k < n
            invariant
                2 <= k <= n <= 5,
                n == v.len(),
                v@[0] == '0',
                v@[1] == '.',
                d == v@.skip(2),
                forall|j: int| 2 <= j < k ==> is_digit_char(v@[j]),
                acc == thousandths(d.take(k - 2)),
            decreases n - k,
        {
            let c = v[k];
            if !('0' <= c && c <= '9') {
                proof {
                    assert(!is_digit_char(v@[k as int]));
                }
                return None;
            }
            let dv: u32 = (c as u32) - 48;
            let scale: u32 = if k == 2 {
                100
            } else if k == 3 {
                10
            } else {
                1
            };
            proof {
                assert(d.take(k - 1) =~= d.take(k - 2).push(c));
                assert(d[k - 2] == c);
            }
            acc = acc + dv * scale;
            k = k + 1;
        }
        proof {
            assert(d.take(n - 2) =~= d);
        }
        Some(acc)
    } else {
        None
    }
}

fn entry_weight(e: &Vec<char>) -> (r: Option<u32>)
    ensures
        match spec_param_q(split_on(e@, ';').skip(1)) {
            Some(w) => r matches Some(x) && x == w,
            None => r is None,
        },
{
    let pieces = split_chars(e, ';');
    let ghost ps = pieces@.map_values(|p: Vec<char>| p@).skip(1);
    let mut i: usize = 1;
    proof {
        assert(pieces@.map_values(|p: Vec<char>| p@).skip(1).skip(0) =~= ps);
    }
    while i < pieces.len()
        invariant
            1 <= i <= pieces.len(),
            ps == pieces@.map_values(|p: Vec<char>| p@).skip(1),
            pieces@.map_values(|p: Vec<char>| p@) == split_on(e@, ';'),
            spec_param_q(ps) == spec_param_q(ps.skip(i - 1)),
        decreases pieces.len() - i,
    {
        proof {
            assert(ps.skip(i - 1)[0] == pieces@[i as int]@);
            assert(ps.skip(i - 1).skip(1) =~= ps.skip(i as int));
        }
        let t = trim_chars(&pieces[i]);
        if t.len() >= 2 && (t[0] == 'q' || t[0] == 'Q') && t[1] == '=' {
            let mut rest: Vec<char> = Vec::new();
            let mut k: usize = 2;
            while k < t.len()
                invariant
                    2 <= k <= t.len(),
                    rest@ == t@.subrange(2, k as int),
                decreases t.len() - k,
            {
                rest.push(t[k]);
                proof {
                    assert(rest@ =~= t@.subrange(2, k + 1));
                }
                k = k + 1;
            }
            proof {
                assert(rest@ =~= t@.skip(2));
            }
            return qvalue(&rest);
        }
        i = i + 1;
    }
    proof {
        assert(ps.skip(i - 1).len() == 0);
    }
    Some(1000)
}

fn accept_candidate(e: &Vec<char>) -> (r: Option<(&'static str, u32)>)
    ensures
        match spec_accept_candidate(e@) {
            Some(c) => r matches Some(x) && x.0@ == c.0 && x.1 == c.1,
            None => r is None,
        },
{
    let (first, _) = take_until(e, ';');
    let tag = trim_chars(&first);
    if tag.len() == 0 {
        return None;
    }
    let tag_s = string_of(&tag);
    let matched = match_browser_lang(tag_s.as_str());
    let mv = chars_of(matched);
    let en = chars_of("en");
    if !seq_eq(&mv, &en) || eq_ignore_ascii_case(&tag, &en) {
        match entry_weight(e) {
            Some(w) => if w > 0 {
                Some((matched, w))
            } else {
                None
            },
            None => None,
        }
    } else {
        None
    }
}

/// Picks the language for an `Accept-Language` header value: among its
/// comma-separated entries that name a supported language, the one with
/// the highest `q` weight (the earliest of equal weights); entries of
/// weight 0 or with a malformed weight are not acceptable.
pub fn pick_from_accept_language(header: &str) -> (r: &'static str)
    ensures
        r@ == spec_pick_from_accept_language(header@),
{
    let hv = chars_of(header);
    let entries = split_chars(&hv, ',');
    let ghost es = entries@.map_values(|p: Vec<char>| p@);
    let mut best: Option<(&'static str, u32)> = None;
    let mut i: usize = 0;
    proof {
        assert(es.take(0) =~= Seq::<Seq<char>>::empty());
    }
    while i < entries.len()
        invariant
            i <= entries.len(),
            es == entries@.map_values(|p: Vec<char>| p@),
            es == split_on(hv@, ','),
            hv@ == header@,
            match spec_best_candidate(es.take(i as int)) {
                Some(c) => best matches Some(x) && x.0@ == c.0 && x.1 == c.1,
                None => best is None,
            },
        decreases entries.len() - i,
    {
        proof {
            assert(es.take(i + 1).drop_last() =~= es.take(i as int));
            assert(es.take(i + 1).last() == entries@[i as int]@);
        }
        let cand = accept_candidate(&entries[i]);
        match cand {
            Some(c) => {
                match best {
                    Some(b) => {
                        if c.1 > b.1 {
                            best = Some(c);
                        }
                    },
                    None => {
                        best = Some(c);
                    },
                }
            },
            None => {},
        }
        i = i + 1;
    }
    proof {
        assert(es.take(entries.len() as int) =~= es);
    }
    match best {
        Some(b) => b.0,
        None => "en",
    }
}

// ---------- message catalog ----------

/// Translation tables: for each language, its message entries (key, text).
pub struct Catalog {
    tables: Vec<(String, Vec<(String, String)>)>,
}

pub open spec fn entries_view(es: Seq<(String, String)>) -> Seq<(Seq<char>, Seq<char>)> {
    es.map_values(|e: (String, String)| (e.0@, e.1@))
}

impl View for Catalog {
    type V = Seq<(Seq<char>, Seq<(Seq<char>, Seq<char>)>)>;

    closed spec fn view(&self) -> Self::V {
        self.tables@.map_values(
            |t: (String, Vec<(String, String)>)| (t.0@, entries_view(t.1@)),
        )
    }
}

/// The text for `key` in the language's table, if both exist.
pub open spec fn table_text(
    cat: Seq<(Seq<char>, Seq<(Seq<char>, Seq<char>)>)>,
    lang: Seq<char>,
    key: Seq<char>,
) -> Option<Seq<char>> {
    match assoc(cat, lang) {
        Some(t) => assoc(t, key),
        None => None,
    }
}

/// The text for `key`: from the language's table, else from the English
/// table, else the key itself.
pub open spec fn spec_lookup(
    cat: Seq<(Seq<char>, Seq<(Seq<char>, Seq<char>)>)>,
    lang: Seq<char>,
    key: Seq<char>,
) -> Seq<char> {
    match table_text(cat, lang, key) {
        Some(v) => v,
        None => match table_text(cat, "en"@, key) {
            Some(v) => v,
            None => key,
        },
    }
}

impl Catalog {
    /// A catalog without tables.
    pub fn new() -> (c: Catalog)
        ensures
            c@ == Seq::<(Seq<char>, Seq<(Seq<char>, Seq<char>)>)>::empty(),
    {
        let c = Catalog { tables: Vec::new() };
        assert(c@ =~= Seq::<(Seq<char>, Seq<(Seq<char>, Seq<char>)>)>::empty());
        c
    }

    /// Installs the table of `lang`, replacing any earlier one.
    pub fn insert_table(&mut self, lang: String, entries: Vec<(String, String)>)
        ensures
            final(self)@ == seq![(lang@, entries_view(entries@))] + old(self)@,
            assoc(final(self)@, lang@) == Some(entries_view(entries@)),
    {
        let ghost l = lang@;
        let ghost ev = entries_view(entries@);
        let ghost before = self@;
        self.tables.insert(0, (lang, entries));
        assert(self@ =~= seq![(l, ev)] + before);
    }

    /// The entries of the table of `lang`, if installed.
    fn table(&self, lang: &str) -> (r: Option<&Vec<(String, String)>>)
        ensures
            r matches Some(t) ==> assoc(self@, lang@) == Some(entries_view(t@)),
            r is None ==> assoc(self@, lang@) is None,
    {
        let ghost ps = self@;
        let mut i: usize = 0;
        proof {
            assert(ps.skip(0) =~= ps);
        }
        while i < self.tables.len()
            invariant
                i <= self.tables.len(),
                ps == self@,
                ps.len() == self.tables.len(),
                assoc(ps, lang@) == assoc(ps.skip(i as int), lang@),
            decreases self.tables.len() - i,
        {
            let t = &self.tables[i];
            assert(ps[i as int] == (t.0@, entries_view(t.1@)));
            if str_eq(t.0.as_str(), lang) {
                proof {
                    lemma_assoc_hit(ps, i as int, lang@);
                }
                return Some(&t.1);
            }
            proof {
                lemma_assoc_step(ps, i as int, lang@);
            }
            i = i + 1;
        }
        proof {
            lemma_assoc_end(ps, lang@);
        }
        None
    }
}

/// The text paired with `key` in `entries`, if any.
fn entry_text(entries: &Vec<(String, String)>, key: &str) -> (r: Option<String>)
    ensures
        r matches Some(v) ==> assoc(entries_view(entries@), key@) == Some(v@),
        r is None ==> assoc(entries_view(entries@), key@) is None,
{
    let ghost ps = entries_view(entries@);
    let mut i: usize = 0;
    proof {
        assert(ps.skip(0) =~= ps);
    }
    while i < entries.len()
        invariant
            i <= entries.len(),
            ps == entries_view(entries@),
            ps.len() == entries.len(),
            assoc(ps, key@) == assoc(ps.skip(i as int), key@),
        decreases entries.len() - i,
    {
        let e = &entries[i];
        assert(ps[i as int] == (e.0@, e.1@));
        if str_eq(e.0.as_str(), key) {
            proof {
                lemma_assoc_hit(ps, i as int, key@);
            }
            return Some(e.1.clone());
        }
        proof {
            lemma_assoc_step(ps, i as int, key@);
        }
        i = i + 1;
    }
    proof {
        lemma_assoc_end(ps, key@);
    }
    None
}

/// The localised text for `key` in `lang`; falls back to English, then to
/// the key itself.
pub fn lookup(catalog: &Catalog, lang: &str, key: &str) -> (r: String)
    ensures
        r@ == spec_lookup(catalog@, lang@, key@),
{
    if let Some(t) = catalog.table(lang) {
        if let Some(v) = entry_text(t, key) {
            return v;
        }
    }
    if let Some(t) = catalog.table("en") {
        if let Some(v) = entry_text(t, key) {
            return v;
        }
    }
    owned(key)
}

// ---------- template context ----------

/// The language context every admin page renders with.
#[derive(Debug, Clone, Copy)]
pub struct LangCtx {
    /// The current language code (a supported one).
    pub lang: &'static str,
    /// Writing direction: `rtl` or `ltr`.
    pub dir: &'static str,
    /// The native name of the current language.
    pub native_name: &'static str,
}

/// `{name}`, the placeholder that `name` stands for in a message.
pub open spec fn placeholder(name: Seq<char>) -> Seq<char> {
    seq!['{'] + name + seq!['}']
}

/// `s` with each placeholder of `params` replaced by its value, in order.
pub open spec fn substitute_all(s: Seq<char>, params: Seq<(Seq<char>, Seq<char>)>) -> Seq<char>
    decreases params.len(),
{
    if params.len() == 0 {
        s
    } else {
        substitute_all(
            replace_spec(s, placeholder(params[0].0), params[0].1),
            params.skip(1),
        )
    }
}

/// `s` with every `{name}` replaced by `value`.
fn substitute(s: &Vec<char>, name: &str, value: &str) -> (r: Vec<char>)
    ensures
        r@ == replace_spec(s@, placeholder(name@), value@),
{
    let mut needle: Vec<char> = Vec::new();
    needle.push('{');
    let nv = chars_of(name);
    needle = concat_chars(&needle, &nv);
    needle.push('}');
    assert(needle@ =~= placeholder(name@));
    let vv = chars_of(value);
    replace_chars(s, &needle, &vv)
}

impl LangCtx {
    /// The context for `lang`; an unsupported code falls back to English.
    pub fn new(lang: &str) -> (r: LangCtx)
        ensures
            r.lang@ == spec_lang_to_static(lang@),
            r.dir@ == (if spec_is_rtl(r.lang@) { "rtl"@ } else { "ltr"@ }),
            r.native_name@ == spec_page_native_name(r.lang@),
    {
        let l = lang_to_static(lang);
        LangCtx { lang: l, dir: if is_rtl(l) { "rtl" } else { "ltr" }, native_name: page_native_name(l) }
    }

    /// The localised text for `key`.
    pub fn t(&self, catalog: &Catalog, key: &str) -> (r: String)
        ensures
            r@ == spec_lookup(catalog@, self.lang@, key@),
    {
        lookup(catalog, self.lang, key)
    }

    /// The localised text for `key` with each `{name}` placeholder of
    /// `params` replaced by its value.
    pub fn tf(&self, catalog: &Catalog, key: &str, params: &[(&str, &str)]) -> (r: String)
        ensures
            r@ == substitute_all(
                spec_lookup(catalog@, self.lang@, key@),
                params@.map_values(|p: (&str, &str)| (p.0@, p.1@)),
            ),
    {
        let ghost ps = params@.map_values(|p: (&str, &str)| (p.0@, p.1@));
        let text = lookup(catalog, self.lang, key);
        let mut s = chars_of(text.as_str());
        let mut i: usize = 0;
        proof {
            assert(ps.skip(0) =~= ps);
        }
        while i < params.len()
            invariant
                i <= params.len(),
                ps == params@.map_values(|p: (&str, &str)| (p.0@, p.1@)),
                substitute_all(spec_lookup(catalog@, self.lang@, key@), ps) == substitute_all(
                    s@,
                    ps.skip(i as int),
                ),
            decreases params.len() - i,
        {
            let (k, v) = params[i];
            proof {
                assert(ps.skip(i as int)[0] == (k@, v@));
                assert(ps.skip(i as int).skip(1) =~= ps.skip(i + 1));
            }
            s = substitute(&s, k, v);
            i = i + 1;
        }
        proof {
            assert(ps.skip(params.len() as int).len() == 0);
        }
        string_of(&s)
    }

    /// The localised text for `key` with `{name}` replaced by `value`.
    pub fn t1(&self, catalog: &Catalog, key: &str, name: &str, value: &str) -> (r: String)
        ensures
            r@ == replace_spec(spec_lookup(catalog@, self.lang@, key@), placeholder(name@), value@),
    {
        let text = lookup(catalog, self.lang, key);
        let s = chars_of(text.as_str());
        let out = substitute(&s, name, value);
        string_of(&out)
    }

    /// Every supported language with its native name, for the menu.
    pub fn all_langs(&self) -> (r: Vec<(&'static str, &'static str)>)
        ensures
            r@.map_values(|p: (&'static str, &'static str)| (p.0@, p.1@)) == spec_native_names(),
    {
        native_names()
    }
}

} // verus!

verus! {

// ---------- request-level language choice ----------

/// The value of a hexadecimal digit byte.
pub open spec fn spec_hex_val(b: u8) -> Option<u8> {
    if 48 <= b && b <= 57 {
        Some((b - 48) as u8)
    } else if 97 <= b && b <= 102 {
        Some((b - 97 + 10) as u8)
    } else if 65 <= b && b <= 70 {
        Some((b - 65 + 10) as u8)
    } else {
        None
    }
}

pub fn hex_val(b: u8) -> (r: Option<u8>)
    ensures
        r == spec_hex_val(b),
{
    if b >= 48 && b <= 57 {
        Some(b - 48)
    } else if b >= 97 && b <= 102 {
        Some(b - 97 + 10)
    } else if b >= 65 && b <= 70 {
        Some(b - 65 + 10)
    } else {
        None
    }
}

/// Percent-decoding of a byte string as the language parameter is read:
/// `%XY` with two hex digits becomes that byte, `+` a space, and every
/// other byte stands for the character with that code.
pub open spec fn spec_url_decode(b: Seq<u8>) -> Seq<char>
    decreases b.len(),
{
    if b.len() == 0 {
        Seq::empty()
    } else if b[0] == 37 && 2 < b.len() && spec_hex_val(b[1]) is Some && spec_hex_val(b[2]) is Some {
        seq![((spec_hex_val(b[1]).unwrap() << 4u8) | spec_hex_val(b[2]).unwrap()) as char]
            + spec_url_decode(b.skip(3))
    } else if b[0] == 43 {
        seq![' '] + spec_url_decode(b.skip(1))
    } else {
        seq![b[0] as char] + spec_url_decode(b.skip(1))
    }
}

/// Percent-decodes `s` (see `spec_url_decode`).
pub fn url_decode_simple(s: &str) -> (r: Vec<char>)
    ensures
        r@ == spec_url_decode(s.spec_bytes()),
{
    let bytes = s.as_bytes();
    let ghost b = bytes@;
    let mut out: Vec<char> = Vec::new();
    let mut i: usize = 0;
    proof {
        assert(b.skip(0) =~= b);
    }
    while i < bytes.len()
        invariant
            i <= bytes.len(),
            b == bytes@,
            b == s.spec_bytes(),
            spec_url_decode(b) == out@ + spec_url_decode(b.skip(i as int)),
        decreases bytes.len() - i,
    {
        let ghost rest = b.skip(i as int);
        proof {
            assert(rest[0] == b[i as int]);
        }
        if bytes[i] == 37 && bytes.len() - i > 2 {
            let hi = hex_val(bytes[i + 1]);
            let lo = hex_val(bytes[i + 2]);
            if let (Some(h), Some(l)) = (hi, lo) {
                let c = ((h << 4) | l) as char;
                proof {
                    assert(rest[1] == b[i + 1]);
                    assert(rest[2] == b[i + 2]);
                    assert(rest.skip(3) =~= b.skip(i + 3));
                    assert(out@ + (seq![c] + spec_url_decode(rest.skip(3))) =~= out@.push(c)
                        + spec_url_decode(b.skip(i + 3)));
                }
                out.push(c);
                i = i + 3;
                continue;
            }
        } else if bytes[i] == 43 {
            proof {
                assert(rest.skip(1) =~= b.skip(i + 1));
                assert(out@ + (seq![' '] + spec_url_decode(rest.skip(1))) =~= out@.push(' ')
                    + spec_url_decode(b.skip(i + 1)));
            }
            out.push(' ');
            i = i + 1;
            continue;
        }
        let c = bytes[i] as char;
        proof {
            assert(rest.skip(1) =~= b.skip(i + 1));
            assert(out@ + (seq![c] + spec_url_decode(rest.skip(1))) =~= out@.push(c)
                + spec_url_decode(b.skip(i + 1)));
        }
        out.push(c);
        i = i + 1;
    }
    proof {
        assert(b.skip(i as int).len() == 0);
        assert(out@ + spec_url_decode(b.skip(i as int)) =~= out@);
    }
    out
}

/// The language that the first `lang=` pair of a query string selects.
pub open spec fn spec_query_lang(ps: Seq<Seq<char>>) -> Option<Seq<char>>
    decreases ps.len(),
{
    if ps.len() == 0 {
        None
    } else {
        let p = ps[0];
        let k = prefix_before(p, '=');
        if k.len() < p.len() && k == "lang"@ {
            Some(
                spec_lang_to_static(
                    trim_spec(spec_url_decode(encode_utf8(p.skip(k.len() + 1int)))),
                ),
            )
        } else {
            spec_query_lang(ps.skip(1))
        }
    }
}

/// The language of a request: the `lang` query parameter, else the
/// language cookie, else the `Accept-Language` header, else English.
pub open spec fn spec_pick_lang(
    query: Option<Seq<char>>,
    cookie_header: Option<Seq<char>>,
    accept_language: Option<Seq<char>>,
) -> Seq<char> {
    let from_query = match query {
        Some(q) => spec_query_lang(split_on(q, '&')),
        None => None,
    };
    let from_cookie = match cookie_header {
        Some(h) => match crate::cookies::spec_cookie_value(h, "cmem_admin_lang"@) {
            Some(c) => Some(spec_lang_to_static(trim_spec(c))),
            None => None,
        },
        None => None,
    };
    match from_query {
        Some(l) => l,
        None => match from_cookie {
            Some(l) => l,
            None => match accept_language {
                Some(a) => spec_pick_from_accept_language(a),
                None => "en"@,
            },
        },
    }
}

/// Without a `?lang=` in the query, the language cookie decides: in the
/// `Cookie` header of a browser holding `cmem_admin_lang=<code>`, the page
/// language is what `<code>` names.
pub proof fn law_lang_cookie_decides(
    pairs: Seq<(Seq<char>, Seq<char>)>,
    code: Seq<char>,
    accept_language: Option<Seq<char>>,
)
    requires
        pairs.len() >= 1,
        forall|i: int| 0 <= i < pairs.len() ==> crate::cookies::cookie_ok(#[trigger] pairs[i]),
        crate::cookies::first_value(pairs, "cmem_admin_lang"@) == Some(code),
    ensures
        spec_pick_lang(None, Some(crate::cookies::cookie_header(pairs)), accept_language)
            == spec_lang_to_static(trim_spec(code)),
{
    reveal_strlit("cmem_admin_lang");
    assert(!"cmem_admin_lang"@.contains('=')) by {
        let n = "cmem_admin_lang"@;
        assert forall|j: int| 0 <= j < n.len() implies n[j] != '=' by {}
    }
    crate::cookies::law_cookie_read_back(pairs, "cmem_admin_lang"@);
}

/// The characters of an optional string slice.
pub open spec fn opt_view(o: Option<&str>) -> Option<Seq<char>> {
    match o {
        Some(s) => Some(s@),
        None => None,
    }
}

/// The language of a request from its query string, its `Cookie` header
/// and its `Accept-Language` header (each as a visible-ASCII header value,
/// when present).
pub fn pick_lang(
    query: Option<&str>,
    cookie_header: Option<&str>,
    accept_language: Option<&str>,
) -> (r: &'static str)
    ensures
        r@ == spec_pick_lang(opt_view(query), opt_view(cookie_header), opt_view(accept_language)),
{
    if let Some(q) = query {
        let qv = chars_of(q);
        let pairs = split_chars(&qv, '&');
        let ghost ps = pairs@.map_values(|p: Vec<char>| p@);
        let lang_key = chars_of("lang");
        let mut i: usize = 0;
        proof {
            assert(ps.skip(0) =~= ps);
        }
        while i < pairs.len()
            invariant
                i <= pairs.len(),
                ps == pairs@.map_values(|p: Vec<char>| p@),
                ps == split_on(q@, '&'),
                lang_key@ == "lang"@,
                query == Some(q),
                spec_query_lang(split_on(q@, '&')) == spec_query_lang(ps.skip(i as int)),
            decreases pairs.len() - i,
        {
            proof {
                assert(ps.skip(i as int)[0] == pairs@[i as int]@);
                assert(ps.skip(i as int).skip(1) =~= ps.skip(i + 1));
            }
            let pair = &pairs[i];
            let (k, found) = take_until(pair, '=');
            if found && seq_eq(&k, &lang_key) {
                let v = crate::text::suffix_from(pair, k.len() + 1);
                let vs = string_of(&v);
                let vstr = vs.as_str();
                let decoded = url_decode_simple(vstr);
                let trimmed = trim_chars(&decoded);
                let ts = string_of(&trimmed);
                let r = lang_to_static(ts.as_str());
                proof {
                    let p = ps.skip(i as int)[0];
                    assert(p == pair@);
                    assert(k@ == "lang"@);
                    assert(vstr.spec_bytes() == encode_utf8(v@));
                    assert(spec_query_lang(ps.skip(i as int)) == Some(
                        spec_lang_to_static(trim_spec(spec_url_decode(encode_utf8(p.skip(k@.len() + 1int))))),
                    ));
                    assert(v@ == p.skip(k@.len() + 1int));
                    assert(decoded@ == spec_url_decode(encode_utf8(v@)));
                    assert(r@ == spec_lang_to_static(trim_spec(decoded@)));
                    assert(spec_query_lang(split_on(q@, '&')) == Some(r@));
                    assert(opt_view(query) == Some(q@));
                }
                return r;
            }
            i = i + 1;
        }
    }
    if let Some(h) = cookie_header {
        if let Some(c) = crate::cookies::cookie_value(h, "cmem_admin_lang") {
            let trimmed = trim_chars(&c);
            let ts = string_of(&trimmed);
            return lang_to_static(ts.as_str());
        }
    }
    if let Some(a) = accept_language {
        return pick_from_accept_language(a);
    }
    "en"
}

// ---------- loading tables ----------

/// The entries of a JSON object of strings, ordered by key, as serde_json
/// parses it; `None` when the text is not such an object.
pub uninterp spec fn spec_parse_messages(raw: Seq<char>) -> Option<Seq<(Seq<char>, Seq<char>)>>;

/// Calls `serde_json::from_str` for a map from strings to strings and
/// returns its entries in key order; `None` when parsing fails.
#[verifier::external_body]
fn parse_message_table(raw: &str) -> (r: Option<Vec<(String, String)>>)
    ensures
        r matches Some(v) ==> spec_parse_messages(raw@) == Some(entries_view(v@)),
        r is None ==> spec_parse_messages(raw@) is None,
{
    serde_json::from_str::<std::collections::BTreeMap<String, String>>(raw).ok().map(
        |m| m.into_iter().collect(),
    )
}

impl Catalog {
    /// Parses the JSON table of `lang` and installs it; `false` (catalog
    /// unchanged) when the text is not a JSON object of strings.
    pub fn load_json(&mut self, lang: &str, raw: &str) -> (ok: bool)
        ensures
            ok == (spec_parse_messages(raw@) is Some),
            ok ==> final(self)@ == seq![(lang@, spec_parse_messages(raw@).unwrap())] + old(self)@,
            !ok ==> final(self)@ == old(self)@,
    {
        match parse_message_table(raw) {
            Some(entries) => {
                self.insert_table(owned(lang), entries);
                true
            },
            None => false,
        }
    }
}

/// The catalog made from language sources `(lang, JSON text)` in order,
/// a later table of a language taking precedence; `None` when some text is
/// not a JSON object of strings.
pub open spec fn spec_load_all(srcs: Seq<(Seq<char>, Seq<char>)>) -> Option<
    Seq<(Seq<char>, Seq<(Seq<char>, Seq<char>)>)>,
>
    decreases srcs.len(),
{
    if srcs.len() == 0 {
        Some(Seq::empty())
    } else {
        match spec_load_all(srcs.drop_last()) {
            None => None,
            Some(prev) => match spec_parse_messages(srcs.last().1) {
                None => None,
                Some(t) => Some(seq![(srcs.last().0, t)] + prev),
            },
        }
    }
}

/// The catalog of the given language sources; `None` when one of them is
/// not a JSON object of strings.
pub fn load_all(sources: &[(String, String)]) -> (r: Option<Catalog>)
    ensures
        match spec_load_all(sources@.map_values(|p: (String, String)| (p.0@, p.1@))) {
            Some(c) => r matches Some(cat) && cat@ == c,
            None => r is None,
        },
{
    let ghost srcs = sources@.map_values(|p: (String, String)| (p.0@, p.1@));
    let mut cat = Catalog::new();
    let mut i: usize = 0;
    proof {
        assert(srcs.take(0) =~= Seq::<(Seq<char>, Seq<char>)>::empty());
    }
    while i < sources.len()
        invariant
            i <= sources.len(),
            srcs == sources@.map_values(|p: (String, String)| (p.0@, p.1@)),
            spec_load_all(srcs.take(i as int)) == Some(cat@),
        decreases sources.len() - i,
    {
        proof {
            assert(srcs.take(i + 1).drop_last() =~= srcs.take(i as int));
            assert(srcs.take(i + 1).last() == (sources@[i as int].0@, sources@[i as int].1@));
        }
        if !cat.load_json(sources[i].0.as_str(), sources[i].1.as_str()) {
            proof {
                lemma_load_all_fails_later(srcs, (i + 1) as nat);
                assert(srcs.take(sources.len() as int) =~= srcs);
            }
            return None;
        }
        i = i + 1;
    }
    proof {
        assert(srcs.take(sources.len() as int) =~= srcs);
    }
    Some(cat)
}

proof fn lemma_load_all_fails_later(srcs: Seq<(Seq<char>, Seq<char>)>, n: nat)
    requires
        n <= srcs.len(),
        spec_load_all(srcs.take(n as int)) is None,
    ensures
        spec_load_all(srcs.take(srcs.len() as int)) is None,
    decreases srcs.len() - n,
{
    if n < srcs.len() {
        assert(srcs.take((n + 1) as int).drop_last() =~= srcs.take(n as int));
        lemma_load_all_fails_later(srcs, n + 1);
    }
}

proof fn lemma_fallbacks_supported()
    ensures
        is_supported("en"@),
        is_supported("pt-br"@),
        is_supported("he"@),
        is_supported("id"@),
{
    let l = spec_supported_langs();
    assert(l[0] == "en"@);
    assert(l[6] == "pt-br"@);
    assert(l[11] == "he"@);
    assert(l[18] == "id"@);
}

proof fn lemma_lang_to_static_supported(lang: Seq<char>)
    ensures
        is_supported(spec_lang_to_static(lang)),
{
    lemma_fallbacks_supported();
}

proof fn lemma_match_browser_lang_supported(input: Seq<char>)
    ensures
        is_supported(spec_match_browser_lang(input)),
{
    lemma_fallbacks_supported();
}

proof fn lemma_query_lang_supported(ps: Seq<Seq<char>>)
    ensures
        spec_query_lang(ps) matches Some(l) ==> is_supported(l),
    decreases ps.len(),
{
    lemma_fallbacks_supported();
    if ps.len() > 0 {
        lemma_query_lang_supported(ps.skip(1));
    }
}

proof fn lemma_best_candidate_supported(es: Seq<Seq<char>>)
    ensures
        spec_best_candidate(es) matches Some(c) ==> is_supported(c.0),
    decreases es.len(),
{
    if es.len() > 0 {
        lemma_best_candidate_supported(es.drop_last());
        let tag = trim_spec(prefix_before(es.last(), ';'));
        lemma_match_browser_lang_supported(tag);
    }
}

/// Whatever a request carries, the page language is a supported one.
pub proof fn law_picked_lang_is_supported(
    query: Option<Seq<char>>,
    cookie_header: Option<Seq<char>>,
    accept_language: Option<Seq<char>>,
)
    ensures
        is_supported(spec_pick_lang(query, cookie_header, accept_language)),
{
    lemma_fallbacks_supported();
    if let Some(q) = query {
        lemma_query_lang_supported(split_on(q, '&'));
    }
    if let Some(h) = cookie_header {
        if let Some(c) = crate::cookies::spec_cookie_value(h, "cmem_admin_lang"@) {
            lemma_lang_to_static_supported(trim_spec(c));
        }
    }
    if let Some(a) = accept_language {
        lemma_best_candidate_supported(split_on(a, ','));
    }
}

/// Without a `?lang=` and a language cookie, the `Accept-Language` header
/// alone decides, and English is the answer without one.
pub proof fn law_header_decides_without_query_or_cookie(
    cookie_header: Option<Seq<char>>,
    accept_language: Option<Seq<char>>,
)
    requires
        match cookie_header {
            Some(h) => crate::cookies::spec_cookie_value(h, "cmem_admin_lang"@) is None,
            None => true,
        },
    ensures
        spec_pick_lang(None, cookie_header, accept_language) == match accept_language {
            Some(a) => spec_pick_from_accept_language(a),
            None => "en"@,
        },
{
}

} // verus!

