//! The document editor form: reading the comma-separated tag field and the
//! `key=value` metadata field, validating a submission, and writing stored
//! tags and metadata back into the form's text fields.
use vstd::prelude::*;

use crate::metadata::{
    entries_view, infer_text_value, infer_value, MetaVal, MetadataEntry, MetadataValue,
};
use crate::numbers::nat_text;
use crate::text::{first_index, is_blank, lines, split_on, trim, views};

verus! {

/// A submitted editor form.
pub struct DocumentFormInput {
    pub title: String,
    pub content: String,
    pub tags: Option<String>,
    pub metadata: Option<String>,
}

/// The text of an optional form field; a missing field reads as empty.
pub open spec fn field_text(o: Option<String>) -> Seq<char> {
    match o {
        Some(s) => s@,
        None => Seq::empty(),
    }
}

/// A form field as characters.
fn field_chars(o: &Option<String>) -> (res: Vec<char>)
    ensures
        res@ == field_text(*o),
{
    match o {
        Some(s) => crate::text::chars_of(s.as_str()),
        None => Vec::new(),
    }
}

// ── Tags ───────────────────────────────────────────────────────────

/// The tags named by the tag field: the comma-separated pieces, trimmed,
/// empty ones dropped, in order.
pub open spec fn parse_tags_spec(field: Seq<char>) -> Seq<Seq<char>> {
    split_on(field, ',').map_values(|p: Seq<char>| trim(p)).filter(|t: Seq<char>| t.len() > 0)
}

/// A tag as the form writes it: trimmed, not empty, without a comma.
pub open spec fn is_clean_tag(t: Seq<char>) -> bool {
    &&& t.len() > 0
    &&& crate::text::is_trimmed(t)
    &&& !crate::text::has_char(t, ',')
}

/// The view of a list of strings.
pub open spec fn strings_view(v: Seq<String>) -> Seq<Seq<char>> {
    v.map_values(|s: String| s@)
}

/// Reads the comma-separated tag field.
pub fn parse_tags(tags: &Option<String>) -> (res: Vec<String>)
    ensures
        strings_view(res@) == parse_tags_spec(field_text(*tags)),
        forall|k: int| 0 <= k < res@.len() ==> is_clean_tag(#[trigger] res@[k]@),
{
    let field = field_chars(tags);
    let pieces = crate::text::split_chars(field.as_slice(), ',');
    let ghost trimmed = views(pieces@).map_values(|p: Seq<char>| trim(p));
    proof {
        crate::text::lemma_split_pieces_lack_sep(field@, ',');
        assert forall|k: int| 0 <= k < pieces@.len() implies !crate::text::has_char(
            #[trigger] pieces@[k]@,
            ',',
        ) by {
            assert(views(pieces@)[k] == pieces@[k]@);
        }
    }
    let mut res: Vec<String> = Vec::new();
    let n = pieces.len();
    let mut i: usize = 0;
    while i < n
        invariant
            n == pieces@.len(),
            i <= n,
            trimmed == views(pieces@).map_values(|p: Seq<char>| trim(p)),
            strings_view(res@) == trimmed.take(i as int).filter(|t: Seq<char>| t.len() > 0),
            forall|k: int| 0 <= k < res@.len() ==> is_clean_tag(#[trigger] res@[k]@),
            forall|k: int| 0 <= k < n ==> !crate::text::has_char(#[trigger] pieces@[k]@, ','),
        decreases n - i,
    {
        let t = crate::text::trim_chars(pieces[i].as_slice());
        proof {
            assert(views(pieces@)[i as int] == pieces@[i as int]@);
            assert(trimmed.take(i + 1).drop_last() =~= trimmed.take(i as int));
            reveal(Seq::filter);
            assert(t@ == trimmed[i as int]);
        }
        if t.len() > 0 {
            let s = crate::text::string_of(t.as_slice());
            proof {
                crate::text::lemma_trim_contains(pieces@[i as int]@);
                assert(!crate::text::has_char(t@, ',')) by {
                    if crate::text::has_char(t@, ',') {
                        let k = choose|k: int| 0 <= k < t@.len() && t@[k] == ',';
                        assert(t@.contains(t@[k]));
                        assert(pieces@[i as int]@.contains(','));
                    }
                }
            }
            let ghost before = res@;
            res.push(s);
            proof {
                assert(strings_view(res@) =~= strings_view(before).push(s@));
            }
        }
        i += 1;
    }
    proof {
        assert(trimmed.take(n as int) =~= trimmed);
    }
    res
}

} // verus!

verus! {

// ── Metadata field ─────────────────────────────────────────────────

/// The message for a non-blank line without `=`.
pub open spec fn missing_equals_message(n: nat, line: Seq<char>) -> Seq<char> {
    "line "@ + nat_text(n) + " is missing '=' (expected key=value): "@ + crate::text::str_debug(
        line,
    )
}

/// The message for a line whose key is blank.
pub open spec fn empty_key_message(n: nat) -> Seq<char> {
    "line "@ + nat_text(n) + " has an empty key"@
}

/// What line number `n` of the metadata field says: nothing when blank,
/// else a key and its typed value split at the first `=`, both trimmed; an
/// error when there is no `=` or the key is blank.
pub open spec fn metadata_line(line: Seq<char>, n: nat) -> Result<
    Option<(Seq<char>, MetaVal)>,
    Seq<char>,
> {
    let l = trim(line);
    if l.len() == 0 {
        Ok(None)
    } else {
        match first_index(l, '=') {
            None => Err(missing_equals_message(n, l)),
            Some(i) => {
                let key = trim(l.take(i));
                if key.len() == 0 {
                    Err(empty_key_message(n))
                } else {
                    Ok(Some((key, infer_text_value(trim(l.skip(i + 1))))))
                }
            },
        }
    }
}

/// The entries of the lines `ls`, the first of them being line number
/// `first`; the first failing line decides the error.
pub open spec fn metadata_lines(ls: Seq<Seq<char>>, first: nat) -> Result<
    Seq<(Seq<char>, MetaVal)>,
    Seq<char>,
>
    decreases ls.len(),
{
    if ls.len() == 0 {
        Ok(Seq::empty())
    } else {
        match metadata_line(ls[0], first) {
            Err(e) => Err(e),
            Ok(entry) => match metadata_lines(ls.drop_first(), first + 1) {
                Err(e) => Err(e),
                Ok(rest) => Ok(
                    match entry {
                        Some(p) => seq![p] + rest,
                        None => rest,
                    },
                ),
            },
        }
    }
}

/// What the metadata field says: its lines, numbered from one.
pub open spec fn parse_metadata_spec(field: Seq<char>) -> Result<
    Seq<(Seq<char>, MetaVal)>,
    Seq<char>,
> {
    metadata_lines(lines(field), 1)
}

/// `done` followed by what `rest` gives, or the error of `rest`.
pub open spec fn after_entries(
    done: Seq<(Seq<char>, MetaVal)>,
    rest: Result<Seq<(Seq<char>, MetaVal)>, Seq<char>>,
) -> Result<Seq<(Seq<char>, MetaVal)>, Seq<char>> {
    match rest {
        Ok(r) => Ok(done + r),
        Err(e) => Err(e),
    }
}

/// The view of a parse outcome.
pub open spec fn outcome_view(r: Result<Vec<MetadataEntry>, String>) -> Result<
    Seq<(Seq<char>, MetaVal)>,
    Seq<char>,
> {
    match r {
        Ok(v) => Ok(entries_view(v@)),
        Err(e) => Err(e@),
    }
}

/// Builds `"line <n>" + tail`.
fn line_message(n: usize, tail: &str) -> (res: String)
    ensures
        res@ == "line "@ + nat_text(n as nat) + tail@,
{
    let mut m = crate::text::string_from("line ");
    let num = crate::numbers::usize_text(n);
    crate::text::push_all(&mut m, num.as_str());
    crate::text::push_all(&mut m, tail);
    m
}

/// Reads one line of the metadata field, the line being number `n`.
fn parse_metadata_line(line: &[char], n: usize) -> (res: Result<Option<MetadataEntry>, String>)
    ensures
        match res {
            Ok(None) => metadata_line(line@, n as nat) == Ok::<
                Option<(Seq<char>, MetaVal)>,
                Seq<char>,
            >(None),
            Ok(Some(e)) => metadata_line(line@, n as nat) == Ok::<
                Option<(Seq<char>, MetaVal)>,
                Seq<char>,
            >(Some((e.0@, e.1@))),
            Err(m) => metadata_line(line@, n as nat) == Err::<
                Option<(Seq<char>, MetaVal)>,
                Seq<char>,
            >(m@),
        },
{
    let l = crate::text::trim_chars(line);
    if l.len() == 0 {
        return Ok(None);
    }
    match crate::text::find_char(l.as_slice(), '=') {
        None => {
            let shown = crate::text::string_of(l.as_slice());
            let quoted = crate::text::debug_text(shown.as_str());
            let mut m = line_message(n, " is missing '=' (expected key=value): ");
            crate::text::push_all(&mut m, quoted.as_str());
            assert(m@ =~= missing_equals_message(n as nat, l@));
            Err(m)
        },
        Some(i) => {
            let before = crate::text::slice_chars(l.as_slice(), 0, i);
            let key = crate::text::trim_chars(before.as_slice());
            assert(before@ =~= l@.take(i as int));
            if key.len() == 0 {
                let m = line_message(n, " has an empty key");
                return Err(m);
            }
            let after = crate::text::slice_chars(l.as_slice(), i + 1, l.len());
            assert(after@ =~= l@.skip(i + 1));
            let value = crate::text::trim_chars(after.as_slice());
            let typed = infer_value(value.as_slice());
            let k = crate::text::string_of(key.as_slice());
            Ok(Some((k, typed)))
        },
    }
}

/// Reads the metadata field: one `key=value` pair per line. Blank lines are
/// skipped; keys and values are trimmed; values are typed (`true`/`false`
/// as booleans, integers as integers, the rest as text). A non-blank line
/// without `=`, or with a blank key, is an error naming its line number.
pub fn parse_metadata(raw: &Option<String>) -> (res: Result<Vec<MetadataEntry>, String>)
    ensures
        outcome_view(res) == parse_metadata_spec(field_text(*raw)),
{
    let field = field_chars(raw);
    let ls = crate::text::lines_of(field.as_slice());
    let ghost all = views(ls@);
    let mut entries: Vec<MetadataEntry> = Vec::new();
    let n = ls.len();
    let mut i: usize = 0;
    assert(all.skip(0) =~= all);
    while i < n
        invariant
            n == ls@.len(),
            i <= n,
            all == views(ls@),
            all == lines(field@),
            field@ == field_text(*raw),
            metadata_lines(all, 1) == after_entries(
                entries_view(entries@),
                metadata_lines(all.skip(i as int), (i + 1) as nat),
            ),
        decreases n - i,
    {
        let ghost rest = all.skip(i as int);
        assert(rest[0] == ls@[i as int]@);
        assert(rest.drop_first() =~= all.skip(i + 1));
        match parse_metadata_line(ls[i].as_slice(), i + 1) {
            Err(m) => {
                assert(metadata_line(rest[0], (i + 1) as nat) == Err::<
                    Option<(Seq<char>, MetaVal)>,
                    Seq<char>,
                >(m@));
                assert(metadata_lines(rest, (i + 1) as nat) == Err::<
                    Seq<(Seq<char>, MetaVal)>,
                    Seq<char>,
                >(m@));
                return Err(m);
            },
            Ok(None) => {},
            Ok(Some(e)) => {
                let ghost before = entries@;
                entries.push(e);
                proof {
                    assert(entries_view(entries@) =~= entries_view(before).push((e.0@, e.1@)));
                    let tail = metadata_lines(all.skip(i + 1), (i + 2) as nat);
                    match tail {
                        Ok(r) => {
                            assert(entries_view(before) + (seq![(e.0@, e.1@)] + r)
                                =~= entries_view(entries@) + r);
                        },
                        Err(_) => {},
                    }
                }
            },
        }
        i += 1;
    }
    proof {
        assert(entries_view(entries@) + Seq::<(Seq<char>, MetaVal)>::empty() =~= entries_view(
            entries@,
        ));
    }
    Ok(entries)
}

} // verus!

verus! {

// ── Validation ─────────────────────────────────────────────────────

/// What a form submission gives: an error when the title or the content
/// is blank or the metadata field is malformed, else the typed metadata.
pub open spec fn validate_spec(
    title: Seq<char>,
    content: Seq<char>,
    metadata: Seq<char>,
) -> Result<Seq<(Seq<char>, MetaVal)>, Seq<char>> {
    if is_blank(title) {
        Err("Title is required."@)
    } else if is_blank(content) {
        Err("Content is required."@)
    } else {
        match parse_metadata_spec(metadata) {
            Ok(v) => Ok(v),
            Err(e) => Err("Invalid metadata: "@ + e),
        }
    }
}

/// Validates a form submission, returning the parsed metadata on success.
pub fn validate_input(input: &DocumentFormInput) -> (res: Result<Vec<MetadataEntry>, String>)
    ensures
        outcome_view(res) == validate_spec(
            input.title@,
            input.content@,
            field_text(input.metadata),
        ),
{
    if crate::text::is_blank_str(input.title.as_str()) {
        return Err(crate::text::string_from("Title is required."));
    }
    if crate::text::is_blank_str(input.content.as_str()) {
        return Err(crate::text::string_from("Content is required."));
    }
    match parse_metadata(&input.metadata) {
        Ok(v) => Ok(v),
        Err(e) => {
            let mut m = crate::text::string_from("Invalid metadata: ");
            crate::text::push_all(&mut m, e.as_str());
            Err(m)
        },
    }
}

// ── Writing stored values back into the form ───────────────────────

/// The view of a list of string pairs.
pub open spec fn pairs_view(v: Seq<(String, String)>) -> Seq<(Seq<char>, Seq<char>)> {
    v.map_values(|p: (String, String)| (p.0@, p.1@))
}

/// One `key=value` line per pair, each ended by a line feed.
pub open spec fn format_pairs(pairs: Seq<(Seq<char>, Seq<char>)>) -> Seq<char>
    decreases pairs.len(),
{
    if pairs.len() == 0 {
        Seq::empty()
    } else {
        format_pairs(pairs.drop_last()) + pairs.last().0 + seq!['='] + pairs.last().1 + seq!['\n']
    }
}

/// Formats stored metadata pairs back into `key=value` lines for the edit
/// form.
pub fn format_metadata(pairs: &[(String, String)]) -> (res: String)
    ensures
        res@ == format_pairs(pairs_view(pairs@)),
{
    let mut out = String::new();
    let n = pairs.len();
    let mut i: usize = 0;
    while i < n
        invariant
            n == pairs@.len(),
            i <= n,
            out@ == format_pairs(pairs_view(pairs@).take(i as int)),
        decreases n - i,
    {
        let (key, value) = &pairs[i];
        crate::text::push_all(&mut out, key.as_str());
        crate::text::push_char(&mut out, '=');
        crate::text::push_all(&mut out, value.as_str());
        crate::text::push_char(&mut out, '\n');
        proof {
            let t = pairs_view(pairs@).take(i + 1);
            assert(t.drop_last() =~= pairs_view(pairs@).take(i as int));
            assert(t.last() == (key@, value@));
            assert(out@ =~= format_pairs(t));
        }
        i += 1;
    }
    assert(pairs_view(pairs@).take(n as int) =~= pairs_view(pairs@));
    out
}

/// The words of `ts` joined by `sep`.
pub open spec fn join(ts: Seq<Seq<char>>, sep: Seq<char>) -> Seq<char>
    decreases ts.len(),
{
    if ts.len() == 0 {
        Seq::empty()
    } else if ts.len() == 1 {
        ts[0]
    } else {
        join(ts.drop_last(), sep) + sep + ts.last()
    }
}

/// The tag field of the edit form: the document's tags joined by `", "`.
pub fn tags_field(tags: &[String]) -> (res: String)
    ensures
        res@ == join(strings_view(tags@), ", "@),
{
    let mut out = String::new();
    let n = tags.len();
    let mut i: usize = 0;
    while i < n
        invariant
            n == tags@.len(),
            i <= n,
            out@ == join(strings_view(tags@).take(i as int), ", "@),
        decreases n - i,
    {
        let ghost t = strings_view(tags@).take(i + 1);
        if i > 0 {
            crate::text::push_all(&mut out, ", ");
        }
        crate::text::push_all(&mut out, tags[i].as_str());
        proof {
            assert(t.drop_last() =~= strings_view(tags@).take(i as int));
            assert(t.last() == tags@[i as int]@);
            if i == 0 {
                assert(out@ =~= t[0]);
            }
        }
        i += 1;
    }
    assert(strings_view(tags@).take(n as int) =~= strings_view(tags@));
    out
}

// ── Form state ─────────────────────────────────────────────────────

/// The user-entered values, and any validation error, the form shows.
pub struct DocumentFormState {
    pub title: String,
    pub content: String,
    pub tags: String,
    pub metadata: String,
    pub error: Option<String>,
}

impl DocumentFormState {
    /// A blank form, as on the "new document" page.
    pub fn blank() -> (res: Self)
        ensures
            res.title@.len() == 0,
            res.content@.len() == 0,
            res.tags@.len() == 0,
            res.metadata@.len() == 0,
            res.error is None,
    {
        Self {
            title: String::new(),
            content: String::new(),
            tags: String::new(),
            metadata: String::new(),
            error: None,
        }
    }

    /// What the user just submitted, kept for showing the form again with
    /// the error.
    pub fn from_input(input: &DocumentFormInput, error: String) -> (res: Self)
        ensures
            res.title@ == input.title@,
            res.content@ == input.content@,
            res.tags@ == field_text(input.tags),
            res.metadata@ == field_text(input.metadata),
            res.error matches Some(e) && e@ == error@,
    {
        let tags = match &input.tags {
            Some(t) => crate::text::string_from(t.as_str()),
            None => String::new(),
        };
        let metadata = match &input.metadata {
            Some(m) => crate::text::string_from(m.as_str()),
            None => String::new(),
        };
        Self {
            title: crate::text::string_from(input.title.as_str()),
            content: crate::text::string_from(input.content.as_str()),
            tags,
            metadata,
            error: Some(error),
        }
    }
}

} // verus!

verus! {

// ── Laws of the form fields ────────────────────────────────────────

/// The pieces a split at the commas gives of tags joined by `", "`: the
/// first tag, then each further tag behind one space.
pub open spec fn joined_pieces(ts: Seq<Seq<char>>) -> Seq<Seq<char>> {
    Seq::new(ts.len(), |k: int| if k == 0 { ts[0] } else { seq![' '] + ts[k] })
}

proof fn lemma_split_join(ts: Seq<Seq<char>>)
    requires
        ts.len() >= 1,
        forall|k: int| 0 <= k < ts.len() ==> !crate::text::has_char(#[trigger] ts[k], ','),
    ensures
        split_on(join(ts, ", "@), ',') == joined_pieces(ts),
    decreases ts.len(),
{
    reveal_strlit(", ");
    if ts.len() == 1 {
        crate::text::lemma_split_without_sep(ts[0], ',');
        assert(split_on(join(ts, ", "@), ',') =~= joined_pieces(ts));
    } else {
        let init = ts.drop_last();
        assert forall|k: int| 0 <= k < init.len() implies !crate::text::has_char(
            #[trigger] init[k],
            ',',
        ) by {
            assert(init[k] == ts[k]);
        }
        lemma_split_join(init);
        let a = join(init, ", "@);
        let last = seq![' '] + ts.last();
        assert(!crate::text::has_char(ts.last(), ',')) by {
            assert(ts.last() == ts[ts.len() - 1]);
        }
        assert(!crate::text::has_char(last, ',')) by {
            if crate::text::has_char(last, ',') {
                let k = choose|k: int| 0 <= k < last.len() && last[k] == ',';
                assert(last[k] == ts.last()[k - 1]);
            }
        }
        assert(join(ts, ", "@) =~= a + seq![','] + last);
        crate::text::lemma_split_concat(a, last, ',');
        crate::text::lemma_split_without_sep(last, ',');
        assert(split_on(join(ts, ", "@), ',') =~= joined_pieces(ts));
    }
}

proof fn lemma_filter_nonempty_keeps_all(ts: Seq<Seq<char>>)
    requires
        forall|k: int| 0 <= k < ts.len() ==> (#[trigger] ts[k]).len() > 0,
    ensures
        ts.filter(|t: Seq<char>| t.len() > 0) == ts,
    decreases ts.len(),
{
    reveal(Seq::filter);
    if ts.len() > 0 {
        let init = ts.drop_last();
        assert forall|k: int| 0 <= k < init.len() implies (#[trigger] init[k]).len() > 0 by {
            assert(init[k] == ts[k]);
        }
        lemma_filter_nonempty_keeps_all(init);
        assert(ts.last() == ts[ts.len() - 1]);
        assert(init.push(ts.last()) =~= ts);
    }
}

/// Tags shown in the edit form's tag field and submitted unchanged come
/// back as the same tags, in the same order: `parse_tags` reads what
/// `tags_field` writes, for tags that are trimmed, non-empty and free of
/// commas (as every tag that `parse_tags` gives is).
pub proof fn lemma_tags_field_round_trip(ts: Seq<Seq<char>>)
    requires
        forall|k: int| 0 <= k < ts.len() ==> is_clean_tag(#[trigger] ts[k]),
    ensures
        parse_tags_spec(join(ts, ", "@)) == ts,
{
    reveal(Seq::filter);
    if ts.len() == 0 {
        let e = Seq::<char>::empty();
        assert(join(ts, ", "@) == e);
        assert(crate::text::split_state(e, ',') == (Seq::<Seq<char>>::empty(), e));
        assert(split_on(e, ',') =~= seq![e]);
        let trimmed = seq![e].map_values(|p: Seq<char>| trim(p));
        assert(trim(e) =~= e);
        assert(trimmed =~= seq![e]);
        assert(seq![e].drop_last() =~= Seq::<Seq<char>>::empty());
        assert(Seq::<Seq<char>>::empty().filter(|t: Seq<char>| t.len() > 0) =~= Seq::<
            Seq<char>,
        >::empty());
        assert(seq![e].filter(|t: Seq<char>| t.len() > 0) =~= Seq::<Seq<char>>::empty());
    } else {
        lemma_split_join(ts);
        let trimmed = joined_pieces(ts).map_values(|p: Seq<char>| trim(p));
        assert forall|k: int| 0 <= k < ts.len() implies #[trigger] trimmed[k] == ts[k] by {
            if k == 0 {
                crate::text::lemma_trim_trimmed(ts[0]);
            } else {
                crate::text::lemma_trim_leading_space(ts[k]);
            }
        }
        assert(trimmed =~= ts);
        lemma_filter_nonempty_keeps_all(ts);
    }
}

} // verus!

verus! {

/// A metadata key the form can carry: non-empty, trimmed, without `=` and
/// without line feed.
pub open spec fn is_clean_key(k: Seq<char>) -> bool {
    &&& k.len() > 0
    &&& crate::text::is_trimmed(k)
    &&& !crate::text::has_char(k, '=')
    &&& !crate::text::has_char(k, '\n')
}

/// A metadata value the form can carry: trimmed, without line feed.
pub open spec fn is_clean_value(v: Seq<char>) -> bool {
    &&& crate::text::is_trimmed(v)
    &&& !crate::text::has_char(v, '\n')
}

/// The line `format_metadata` writes for one pair, without its line feed.
pub open spec fn pair_line(p: (Seq<char>, Seq<char>)) -> Seq<char> {
    p.0 + seq!['='] + p.1
}

/// The pairs with their values typed as the form types them.
pub open spec fn typed_pairs(ps: Seq<(Seq<char>, Seq<char>)>) -> Seq<(Seq<char>, MetaVal)> {
    ps.map_values(|p: (Seq<char>, Seq<char>)| (p.0, infer_text_value(p.1)))
}

proof fn lemma_pair_line_shape(p: (Seq<char>, Seq<char>))
    requires
        is_clean_key(p.0),
        is_clean_value(p.1),
    ensures
        !crate::text::has_char(pair_line(p), '\n'),
        pair_line(p).len() > 0 && pair_line(p).last() != '\r',
        crate::text::is_trimmed(pair_line(p)),
{
    let l = pair_line(p);
    let (k, v) = p;
    assert(!crate::text::has_char(l, '\n')) by {
        if crate::text::has_char(l, '\n') {
            let i = choose|i: int| 0 <= i < l.len() && l[i] == '\n';
            if i < k.len() {
                assert(l[i] == k[i]);
            } else if i > k.len() {
                assert(l[i] == v[i - k.len() - 1]);
            }
        }
    }
    assert(l[0] == k[0]);
    if v.len() > 0 {
        assert(l.last() == v.last());
    } else {
        assert(l.last() == '=');
    }
}

proof fn lemma_metadata_line_of_pair(p: (Seq<char>, Seq<char>), n: nat)
    requires
        is_clean_key(p.0),
        is_clean_value(p.1),
    ensures
        metadata_line(pair_line(p), n) == Ok::<Option<(Seq<char>, MetaVal)>, Seq<char>>(
            Some((p.0, infer_text_value(p.1))),
        ),
{
    let l = pair_line(p);
    let (k, v) = p;
    lemma_pair_line_shape(p);
    crate::text::lemma_trim_trimmed(l);
    assert forall|i: int| 0 <= i < k.len() implies #[trigger] l[i] != '=' by {
        assert(l[i] == k[i]);
    }
    assert(l[k.len() as int] == '=');
    crate::text::lemma_first_index(l, '=', k.len() as int);
    assert(l.take(k.len() as int) =~= k);
    crate::text::lemma_trim_trimmed(k);
    assert(l.skip(k.len() + 1 as int) =~= v);
    crate::text::lemma_trim_trimmed(v);
}

proof fn lemma_format_pairs_lines(ps: Seq<(Seq<char>, Seq<char>)>)
    requires
        forall|k: int|
            0 <= k < ps.len() ==> is_clean_key((#[trigger] ps[k]).0) && is_clean_value(ps[k].1),
    ensures
        crate::text::lines_state(format_pairs(ps)) == (
            ps.map_values(|p: (Seq<char>, Seq<char>)| pair_line(p)),
            Seq::<char>::empty(),
        ),
    decreases ps.len(),
{
    if ps.len() == 0 {
        assert(format_pairs(ps) =~= Seq::<char>::empty());
        assert(ps.map_values(|p: (Seq<char>, Seq<char>)| pair_line(p)) =~= Seq::<
            Seq<char>,
        >::empty());
    } else {
        let init = ps.drop_last();
        assert forall|k: int| 0 <= k < init.len() implies is_clean_key(
            (#[trigger] init[k]).0,
        ) && is_clean_value(init[k].1) by {
            assert(init[k] == ps[k]);
        }
        lemma_format_pairs_lines(init);
        let last = ps.last();
        assert(last == ps[ps.len() - 1]);
        lemma_pair_line_shape(last);
        let l = pair_line(last);
        crate::text::lemma_lines_state_one_line(l);
        assert(format_pairs(ps) =~= format_pairs(init) + l.push('\n'));
        crate::text::lemma_lines_state_concat(format_pairs(init), l.push('\n'));
        assert(ps.map_values(|p: (Seq<char>, Seq<char>)| pair_line(p)) =~= init.map_values(
            |p: (Seq<char>, Seq<char>)| pair_line(p),
        ) + seq![l]);
    }
}

proof fn lemma_metadata_lines_of_pairs(ps: Seq<(Seq<char>, Seq<char>)>, n: nat)
    requires
        forall|k: int|
            0 <= k < ps.len() ==> is_clean_key((#[trigger] ps[k]).0) && is_clean_value(ps[k].1),
    ensures
        metadata_lines(ps.map_values(|p: (Seq<char>, Seq<char>)| pair_line(p)), n) == Ok::<
            Seq<(Seq<char>, MetaVal)>,
            Seq<char>,
        >(typed_pairs(ps)),
    decreases ps.len(),
{
    let ls = ps.map_values(|p: (Seq<char>, Seq<char>)| pair_line(p));
    if ps.len() == 0 {
        assert(typed_pairs(ps) =~= Seq::<(Seq<char>, MetaVal)>::empty());
    } else {
        let rest = ps.drop_first();
        assert forall|k: int| 0 <= k < rest.len() implies is_clean_key(
            (#[trigger] rest[k]).0,
        ) && is_clean_value(rest[k].1) by {
            assert(rest[k] == ps[k + 1]);
        }
        lemma_metadata_lines_of_pairs(rest, n + 1);
        assert(ls.drop_first() =~= rest.map_values(|p: (Seq<char>, Seq<char>)| pair_line(p)));
        lemma_metadata_line_of_pair(ps[0], n);
        assert(ls[0] == pair_line(ps[0]));
        assert(typed_pairs(ps) =~= seq![(ps[0].0, infer_text_value(ps[0].1))] + typed_pairs(
            rest,
        ));
    }
}

/// Metadata pairs written into the form by `format_metadata` and submitted
/// unchanged read back as the same keys, in the same order, with their
/// values typed: `parse_metadata` reads what `format_metadata` writes, for
/// keys that are non-empty, trimmed and free of `=` and line feeds and for
/// values that are trimmed and free of line feeds.
pub proof fn lemma_metadata_field_round_trip(ps: Seq<(Seq<char>, Seq<char>)>)
    requires
        forall|k: int|
            0 <= k < ps.len() ==> is_clean_key((#[trigger] ps[k]).0) && is_clean_value(ps[k].1),
    ensures
        parse_metadata_spec(format_pairs(ps)) == Ok::<Seq<(Seq<char>, MetaVal)>, Seq<char>>(
            typed_pairs(ps),
        ),
{
    lemma_format_pairs_lines(ps);
    lemma_metadata_lines_of_pairs(ps, 1);
}

/// A typed value the form carries unchanged: every integer and boolean,
/// and a text that is trimmed, has no line feed, and that typing keeps as
/// text (it is not `true`, `false` or an integer). A number that does not
/// fit `i64` is not one: the form types its text back as text.
pub open spec fn is_form_value(v: MetaVal) -> bool {
    match v {
        MetaVal::Text(s) => is_clean_value(s) && infer_text_value(s) == v,
        MetaVal::Number(_) => false,
        _ => true,
    }
}

/// Typed entries as the edit form shows them: each key with its value's
/// text.
pub open spec fn shown_entries(es: Seq<(Seq<char>, MetaVal)>) -> Seq<(Seq<char>, Seq<char>)> {
    es.map_values(|e: (Seq<char>, MetaVal)| (e.0, crate::metadata::value_text(e.1)))
}

proof fn lemma_form_value_text_clean(v: MetaVal)
    requires
        is_form_value(v),
    ensures
        is_clean_value(crate::metadata::value_text(v)),
{
    match v {
        MetaVal::Int(i) => {
            let s = crate::numbers::int_text(i as int);
            let m: nat = if i < 0 {
                (-i) as nat
            } else {
                i as nat
            };
            crate::numbers::lemma_nat_text(m);
            let d = nat_text(m);
            assert forall|k: int| 0 <= k < s.len() implies (s[k] == '-' || crate::numbers::is_digit(
                #[trigger] s[k],
            )) by {
                if i < 0 {
                    if k > 0 {
                        assert(s[k] == d[k - 1]);
                    }
                } else {
                    assert(s[k] == d[k]);
                }
            }
            assert(s.len() > 0);
            assert(s[0] == '-' || crate::numbers::is_digit(s[0]));
            assert(s.last() == s[s.len() - 1]);
            assert(!crate::text::has_char(s, '\n'));
        },
        MetaVal::Bool(b) => {
            let s = crate::numbers::bool_text(b);
            assert(!crate::text::has_char(s, '\n'));
        },
        MetaVal::Text(_) => {},
        MetaVal::Number(_) => {},
    }
}

/// The edit form round-trips typed metadata: the entries a document holds,
/// shown as `key=value` lines by `format_metadata` and submitted unchanged,
/// parse back as the same typed entries in the same order, for keys that
/// are non-empty, trimmed and free of `=` and line feeds, and for values
/// that are integers, booleans, or texts that are trimmed, free of line
/// feeds and not read as a boolean or integer.
pub proof fn lemma_typed_entries_round_trip(es: Seq<(Seq<char>, MetaVal)>)
    requires
        forall|k: int|
            0 <= k < es.len() ==> is_clean_key((#[trigger] es[k]).0) && is_form_value(es[k].1),
    ensures
        parse_metadata_spec(format_pairs(shown_entries(es))) == Ok::<
            Seq<(Seq<char>, MetaVal)>,
            Seq<char>,
        >(es),
{
    let ps = shown_entries(es);
    assert forall|k: int| 0 <= k < ps.len() implies is_clean_key((#[trigger] ps[k]).0)
        && is_clean_value(ps[k].1) by {
        lemma_form_value_text_clean(es[k].1);
    }
    lemma_metadata_field_round_trip(ps);
    assert forall|k: int| 0 <= k < es.len() implies #[trigger] typed_pairs(ps)[k] == es[k] by {
        crate::metadata::lemma_value_text_types_back(es[k].1);
    }
    assert(typed_pairs(ps) =~= es);
}

} // verus!

verus! {

/// Every character of every joined word is in the joined text.
pub proof fn lemma_join_contains(ts: Seq<Seq<char>>, sep: Seq<char>, k: int, c: char)
    requires
        0 <= k < ts.len(),
        ts[k].contains(c),
    ensures
        join(ts, sep).contains(c),
    decreases ts.len(),
{
    let j = choose|j: int| 0 <= j < ts[k].len() && ts[k][j] == c;
    if ts.len() == 1 {
        assert(join(ts, sep)[j] == c);
    } else {
        let init = ts.drop_last();
        let a = join(init, sep);
        let s = join(ts, sep);
        assert(s == a + sep + ts.last());
        if k < ts.len() - 1 {
            assert(init[k] == ts[k]);
            lemma_join_contains(init, sep, k, c);
            let i = choose|i: int| 0 <= i < a.len() && a[i] == c;
            assert(s[i] == a[i]);
        } else {
            assert(ts.last() == ts[k]);
            assert(s[a.len() + sep.len() + j] == ts.last()[j]);
        }
    }
}

/// Every character of words joined by a separator comes from a word or
/// from the separator.
pub proof fn lemma_join_chars(ts: Seq<Seq<char>>, sep: Seq<char>, p: spec_fn(char) -> bool)
    requires
        forall|k: int, j: int| 0 <= k < ts.len() && 0 <= j < ts[k].len() ==> p(#[trigger] ts[k][j]),
        forall|j: int| 0 <= j < sep.len() ==> p(#[trigger] sep[j]),
    ensures
        forall|j: int| 0 <= j < join(ts, sep).len() ==> p(#[trigger] join(ts, sep)[j]),
    decreases ts.len(),
{
    if ts.len() == 1 {
        assert forall|j: int| 0 <= j < join(ts, sep).len() implies p(#[trigger] join(ts, sep)[j]) by {
            assert(join(ts, sep)[j] == ts[0][j]);
        }
    } else if ts.len() > 1 {
        let init = ts.drop_last();
        assert forall|k: int, j: int| 0 <= k < init.len() && 0 <= j < init[k].len() implies p(
            #[trigger] init[k][j],
        ) by {
            assert(init[k] == ts[k]);
        }
        lemma_join_chars(init, sep, p);
        let a = join(init, sep);
        let l = ts.last();
        assert forall|j: int| 0 <= j < join(ts, sep).len() implies p(#[trigger] join(ts, sep)[j]) by {
            let s = join(ts, sep);
            assert(s == a + sep + l);
            if j < a.len() {
                assert(s[j] == a[j]);
            } else if j < a.len() + sep.len() {
                assert(s[j] == sep[j - a.len()]);
            } else {
                assert(s[j] == l[j - a.len() - sep.len()]);
                assert(l == ts[ts.len() - 1]);
            }
        }
    }
}

} // verus!

verus! {

// ── Saving a form ──────────────────────────────────────────────────

/// The changes that make a document's metadata exactly the form's
/// entries: remove every row, then add one row per entry.
pub open spec fn form_metadata_ops(entries: Seq<(Seq<char>, MetaVal)>) -> Seq<
    crate::metadata::MetadataOpView,
> {
    seq![crate::metadata::MetadataOpView::ClearAll] + entries.map_values(
        |e: (Seq<char>, MetaVal)| crate::metadata::MetadataOpView::Insert(e.0, e.1),
    )
}

/// Each name once, in the order of its first occurrence.
fn distinct_names(names: Vec<String>) -> (res: Vec<String>)
    ensures
        strings_view(res@) == crate::documents::new_tags(Seq::empty(), strings_view(names@)),
{
    let ghost r = strings_view(names@);
    let mut res: Vec<String> = Vec::new();
    let n = names.len();
    let mut i: usize = 0;
    while i < n
        invariant
            n == names@.len(),
            i <= n,
            r == strings_view(names@),
            strings_view(res@) == crate::documents::new_tags(Seq::empty(), r.take(i as int)),
        decreases n - i,
    {
        let t = &names[i];
        proof {
            let q = r.take(i + 1);
            assert(q.drop_last() =~= r.take(i as int));
            assert(q.last() == t@);
        }
        if !crate::documents::contains_string(&res, t) {
            let ghost before = res@;
            res.push(crate::text::string_from(t.as_str()));
            assert(strings_view(res@) =~= strings_view(before).push(t@));
        }
        i += 1;
    }
    assert(r.take(n as int) =~= r);
    res
}

/// What saving a valid form writes.
pub struct FormPlan {
    /// The title, trimmed.
    pub title: String,
    /// The content, as typed.
    pub content: String,
    /// The tags that replace the document's tags, each name once.
    pub tags: Vec<String>,
    /// The changes that replace the document's metadata.
    pub metadata: Vec<crate::metadata::MetadataOp>,
}

/// What saving a form submission writes: an error message when the form
/// is invalid (as `validate_input` says); else the trimmed title, the
/// content, the tags read from the tag field (each name once, in the order
/// it first appears: a document carries a tag at most once), and the changes that make the
/// metadata exactly the parsed entries.
pub fn plan_form_submission(input: &DocumentFormInput) -> (res: Result<FormPlan, String>)
    ensures
        match res {
            Ok(p) => {
                &&& validate_spec(input.title@, input.content@, field_text(input.metadata))
                    matches Ok(entries)
                &&& p.title@ == trim(input.title@)
                &&& p.content@ == input.content@
                &&& strings_view(p.tags@) == crate::documents::new_tags(
                    Seq::empty(),
                    parse_tags_spec(field_text(input.tags)),
                )
                &&& crate::metadata::ops_view(p.metadata@) == form_metadata_ops(entries)
            },
            Err(e) => validate_spec(input.title@, input.content@, field_text(input.metadata))
                == Err::<Seq<(Seq<char>, MetaVal)>, Seq<char>>(e@),
        },
{
    let entries = match validate_input(input) {
        Ok(v) => v,
        Err(e) => return Err(e),
    };
    let mut ops: Vec<crate::metadata::MetadataOp> = vec![crate::metadata::MetadataOp::ClearAll];
    let n = entries.len();
    let mut i: usize = 0;
    let mut rest = entries;
    let ghost all = entries_view(rest@);
    while i < n
        invariant
            n == rest@.len(),
            i <= n,
            all == entries_view(rest@),
            crate::metadata::ops_view(ops@) == form_metadata_ops(all.take(i as int)),
        decreases n - i,
    {
        let (k, v) = &rest[i];
        let key = crate::text::string_from(k.as_str());
        let value = match v {
            MetadataValue::Text(s) => MetadataValue::Text(crate::text::string_from(s.as_str())),
            MetadataValue::Int(x) => MetadataValue::Int(*x),
            MetadataValue::Number(t) => MetadataValue::Number(crate::text::string_from(t.as_str())),
            MetadataValue::Bool(b) => MetadataValue::Bool(*b),
        };
        let op = crate::metadata::MetadataOp::Insert(key, value);
        let ghost before = ops@;
        ops.push(op);
        proof {
            let t = all.take(i + 1);
            assert(t =~= all.take(i as int).push(all[i as int]));
            assert(all[i as int] == (k@, v@));
            assert(crate::metadata::ops_view(ops@) =~= crate::metadata::ops_view(before).push(
                op@,
            ));
            assert(form_metadata_ops(t) =~= form_metadata_ops(all.take(i as int)).push(op@));
        }
        i += 1;
    }
    assert(all.take(n as int) =~= all);
    Ok(
        FormPlan {
            title: crate::text::trim_str(input.title.as_str()),
            content: crate::text::string_from(input.content.as_str()),
            tags: distinct_names(parse_tags(&input.tags)),
            metadata: ops,
        },
    )
}

/// Saving a form makes the document's metadata exactly the parsed entries,
/// in order, whatever it held before.
pub proof fn lemma_form_replaces_metadata(
    rows: crate::metadata::Rows,
    entries: Seq<(Seq<char>, MetaVal)>,
)
    ensures
        crate::metadata::apply_ops(rows, form_metadata_ops(entries)) == entries,
    decreases entries.len(),
{
    let ops = form_metadata_ops(entries);
    if entries.len() == 0 {
        assert(ops =~= seq![crate::metadata::MetadataOpView::ClearAll]);
        assert(ops.drop_last() =~= Seq::<crate::metadata::MetadataOpView>::empty());
        assert(entries =~= Seq::<(Seq<char>, MetaVal)>::empty());
    } else {
        lemma_form_replaces_metadata(rows, entries.drop_last());
        assert(ops.drop_last() =~= form_metadata_ops(entries.drop_last()));
        assert(entries.drop_last().push(entries.last()) =~= entries);
    }
}

} // verus!
