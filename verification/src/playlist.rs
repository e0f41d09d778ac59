//! Playlist text handling: the decode collaborator that turns dropped
//! playlist files into track references, and the favorites export document.

use vstd::prelude::*;
use vstd::string::{StrSliceExecFns, StringExecFns};

use crate::control::{lemma_track_views_push, track_views};

verus! {

/// The set of track references the decoder extracts from a playlist text,
/// or `None` when it reports a parse failure. The decoder sniffs M3U, PLS,
/// XSPF and ASX formats itself; what it finds is knowable only by calling it.
pub uninterp spec fn decoded_tracks(text: Seq<char>) -> Option<Set<Seq<char>>>;

/// Relies on `playlist_decoder::decode`: it gathers the distinct track
/// references of the playlist text into a vector whose order is arbitrary
/// (it drains a hash set), and fails exactly when its XML-shaped formats
/// report an error. The error is returned as the decoder's message.
#[verifier::external_body]
pub(crate) fn decode_playlist(text: &str) -> (r: Result<Vec<String>, String>)
    ensures
        r matches Ok(v) ==> (decoded_tracks(text@) matches Some(s) && track_views(v@).to_set()
            == s && track_views(v@).no_duplicates()),
        r is Err ==> decoded_tracks(text@) is None,
{
    match playlist_decoder::decode(text) {
        Ok(v) => Ok(v),
        Err(e) => Err(format!("{}", e)),
    }
}

/// A reference already written as a local file URL, kept verbatim on export.
pub open spec fn has_file_scheme(s: Seq<char>) -> bool {
    s.len() >= 8 && s.subrange(0, 8) == "file:///"@
}

/// Text in the `file` URL scheme, as the `url` crate serializes it.
pub open spec fn is_file_url(s: Seq<char>) -> bool {
    s.len() >= 7 && s.subrange(0, 7) == "file://"@
}

/// Relies on `url::Url::from_file_path` and `url::Url::as_str`: an absolute
/// filesystem path becomes a URL in the `file` scheme — serialized starting
/// with `file://` — and any other path is refused. Which paths convert
/// depends on the platform, so no more is claimed.
#[verifier::external_body]
fn file_url(p: &String) -> (r: Option<String>)
    ensures
        r matches Some(u) ==> is_file_url(u@),
{
    match url::Url::from_file_path(p) {
        Ok(u) => Some(u.as_str().to_owned()),
        Err(()) => None,
    }
}

/// Relies on `String::push`: appends exactly one character.
#[verifier::external_body]
fn push_char(out: &mut String, c: char)
    ensures
        final(out)@ == old(out)@ + seq![c],
{
    out.push(c);
}

/// One character of location text as it is written into the document: the
/// five characters with a meaning in XML become entity references.
pub open spec fn escape_char(c: char) -> Seq<char> {
    if c == '&' {
        "&amp;"@
    } else if c == '<' {
        "&lt;"@
    } else if c == '>' {
        "&gt;"@
    } else if c == '\'' {
        "&apos;"@
    } else if c == '"' {
        "&quot;"@
    } else {
        seq![c]
    }
}

/// Location text as it is written into the document.
pub open spec fn escape_text(s: Seq<char>) -> Seq<char>
    decreases s.len(),
{
    if s.len() == 0 {
        Seq::empty()
    } else {
        escape_char(s[0]) + escape_text(s.drop_first())
    }
}

/// Append the escaped form of `s` to the document being built.
fn append_escaped(out: &mut String, s: &String)
    ensures
        final(out)@ == old(out)@ + escape_text(s@),
{
    let st = s.as_str();
    let n = st.unicode_len();
    proof {
        assert(s@.skip(0) =~= s@);
    }
    let mut i: usize = 0;
    while i < n
        invariant
            st@ == s@,
            n == s@.len(),
            i <= n,
            out@ + escape_text(s@.skip(i as int)) == old(out)@ + escape_text(s@),
        decreases n - i,
    {
        let ghost rest = s@.skip(i as int);
        let c = st.get_char(i);
        proof {
            assert(rest[0] == s@[i as int]);
            assert(rest[0] == c);
            assert(rest.drop_first() =~= s@.skip(i as int + 1));
        }
        if c == '&' {
            out.append("&amp;");
        } else if c == '<' {
            out.append("&lt;");
        } else if c == '>' {
            out.append("&gt;");
        } else if c == '\'' {
            out.append("&apos;");
        } else if c == '"' {
            out.append("&quot;");
        } else {
            push_char(out, c);
        }
        proof {
            assert(out@ + escape_text(s@.skip(i as int + 1)) =~= old(out)@ + escape_text(s@));
        }
        i = i + 1;
    }
    proof {
        assert(s@.skip(n as int) =~= Seq::<char>::empty());
        assert(escape_text(Seq::<char>::empty()) =~= Seq::<char>::empty());
        assert(final(out)@ =~= old(out)@ + escape_text(s@));
    }
}

/// Whether this reference is already in `file:///` form.
fn has_file_url_prefix(s: &String) -> (r: bool)
    ensures
        r == has_file_scheme(s@),
{
    proof {
        reveal_strlit("file:///");
    }
    let st = s.as_str();
    if st.unicode_len() < 8 {
        return false;
    }
    let r = st.get_char(0) == 'f' && st.get_char(1) == 'i' && st.get_char(2) == 'l'
        && st.get_char(3) == 'e' && st.get_char(4) == ':' && st.get_char(5) == '/'
        && st.get_char(6) == '/' && st.get_char(7) == '/';
    proof {
        if r {
            assert(s@.subrange(0, 8) =~= "file:///"@);
        } else {
            if s@.subrange(0, 8) == "file:///"@ {
                assert(forall|j: int| 0 <= j < 8 ==> s@.subrange(0, 8)[j] == s@[j]);
                assert(false);
            }
        }
    }
    r
}

/// How the exported locations relate to the favorite references they come
/// from, in order: a reference already in `file:///` form is written as it
/// stands; any other must have become a `file://` URL, or is skipped (the
/// unverified glue logs a warning for it) rather than failing the export.
pub open spec fn export_locations_ok(files: Seq<Seq<char>>, locs: Seq<Seq<char>>) -> bool
    decreases files.len(),
{
    if files.len() == 0 {
        locs.len() == 0
    } else {
        let f = files[0];
        if has_file_scheme(f) {
            locs.len() > 0 && locs[0] == f && export_locations_ok(
                files.drop_first(),
                locs.drop_first(),
            )
        } else {
            (locs.len() > 0 && is_file_url(locs[0]) && export_locations_ok(
                files.drop_first(),
                locs.drop_first(),
            )) || export_locations_ok(files.drop_first(), locs)
        }
    }
}

/// Extending the references by one extends the locations by its entry, or by
/// nothing when it does not convert.
proof fn lemma_export_push(
    files: Seq<Seq<char>>,
    locs: Seq<Seq<char>>,
    f: Seq<char>,
    added: Option<Seq<char>>,
)
    requires
        export_locations_ok(files, locs),
        match added {
            Some(u) => (has_file_scheme(f) && u == f) || (!has_file_scheme(f) && is_file_url(u)),
            None => !has_file_scheme(f),
        },
    ensures
        export_locations_ok(
            files.push(f),
            match added {
                Some(u) => locs.push(u),
                None => locs,
            },
        ),
    decreases files.len(),
{
    let files2 = files.push(f);
    let locs2 = match added {
        Some(u) => locs.push(u),
        None => locs,
    };
    assert(export_locations_ok(Seq::<Seq<char>>::empty(), Seq::<Seq<char>>::empty()));
    if files.len() == 0 {
        assert(locs.len() == 0);
        assert(files2[0] == f);
        assert(files2.drop_first() =~= Seq::<Seq<char>>::empty());
        match added {
            Some(u) => {
                assert(locs2[0] == u);
                assert(locs2.drop_first() =~= Seq::<Seq<char>>::empty());
                assert(export_locations_ok(files2.drop_first(), locs2.drop_first()));
                assert(export_locations_ok(files2, locs2));
            },
            None => {
                assert(export_locations_ok(files2.drop_first(), locs2));
                assert(export_locations_ok(files2, locs2));
            },
        }
    } else {
        assert(files2[0] == files[0]);
        assert(files2.drop_first() =~= files.drop_first().push(f));
        if has_file_scheme(files[0]) {
            lemma_export_push(files.drop_first(), locs.drop_first(), f, added);
            assert(locs2[0] == locs[0]);
            match added {
                Some(u) => {
                    assert(locs2.drop_first() =~= locs.drop_first().push(u));
                },
                None => {},
            }
            assert(export_locations_ok(files2.drop_first(), locs2.drop_first()));
            assert(export_locations_ok(files2, locs2));
        } else {
            if locs.len() > 0 && is_file_url(locs[0]) && export_locations_ok(
                files.drop_first(),
                locs.drop_first(),
            ) {
                lemma_export_push(files.drop_first(), locs.drop_first(), f, added);
                assert(locs2[0] == locs[0]);
                match added {
                    Some(u) => {
                        assert(locs2.drop_first() =~= locs.drop_first().push(u));
                    },
                    None => {},
                }
                assert(export_locations_ok(files2.drop_first(), locs2.drop_first()));
                assert(export_locations_ok(files2, locs2));
            } else {
                assert(export_locations_ok(files.drop_first(), locs));
                lemma_export_push(files.drop_first(), locs, f, added);
                assert(export_locations_ok(files2.drop_first(), locs2));
                assert(export_locations_ok(files2, locs2));
            }
        }
    }
}

/// Select the location text for each favorite reference, in order: verbatim
/// for `file:///` references, converted to a file URL otherwise, skipping
/// references that do not convert. The returned flags say which references
/// were skipped, so the caller can log them.
pub fn track_locations(files: &Vec<String>) -> (r: (Vec<String>, Vec<bool>))
    ensures
        export_locations_ok(track_views(files@), track_views(r.0@)),
        r.1@.len() == files@.len(),
    {
    let mut locs: Vec<String> = Vec::new();
    let mut kept: Vec<bool> = Vec::new();
    let mut i: usize = 0;
    while i < files.len()
        invariant
            i <= files@.len(),
            kept@.len() == i,
            export_locations_ok(track_views(files@).take(i as int), track_views(locs@)),
        decreases files@.len() - i,
    {
        let ghost fv = track_views(files@);
        let ghost lv = track_views(locs@);
        let f = &files[i];
        proof {
            assert(fv[i as int] == files@[i as int]@);
            assert(fv.take(i as int + 1) =~= fv.take(i as int).push(fv[i as int]));
        }
        if has_file_url_prefix(f) {
            proof {
                lemma_track_views_push(locs@, files@[i as int]);
                lemma_export_push(fv.take(i as int), lv, fv[i as int], Some(fv[i as int]));
            }
            locs.push(f.clone());
            kept.push(true);
        } else {
            match file_url(f) {
                Some(u) => {
                    proof {
                        lemma_track_views_push(locs@, u);
                        lemma_export_push(fv.take(i as int), lv, fv[i as int], Some(u@));
                    }
                    locs.push(u);
                    kept.push(true);
                },
                None => {
                    proof {
                        lemma_export_push(fv.take(i as int), lv, fv[i as int], None);
                    }
                    kept.push(false);
                },
            }
        }
        i = i + 1;
    }
    proof {
        assert(track_views(files@).take(files@.len() as int) =~= track_views(files@));
    }
    (locs, kept)
}

/// The document's fixed head: declaration, playlist element, title, and the
/// opening of the track list.
pub open spec fn xspf_header() -> Seq<char> {
    "<?xml version=\"1.0\" encoding=\"UTF-8\"?>\n<playlist version=\"1\" xmlns=\"http://xspf.org/ns/0/\">\n    <title>Audio-Wrench Favorites</title>\n    <trackList>\n"@
}

/// The document's fixed tail, closing the track list and the playlist.
pub open spec fn xspf_footer() -> Seq<char> {
    "    </trackList>\n</playlist>\n"@
}

/// One track entry with its escaped location text.
pub open spec fn track_entry(loc: Seq<char>) -> Seq<char> {
    "        <track>\n            <location>"@ + escape_text(loc)
        + "</location>\n        </track>\n"@
}

/// All track entries, in order.
pub open spec fn track_entries(locs: Seq<Seq<char>>) -> Seq<char>
    decreases locs.len(),
{
    if locs.len() == 0 {
        Seq::empty()
    } else {
        track_entry(locs[0]) + track_entries(locs.drop_first())
    }
}

/// The whole favorites document for these location texts.
pub open spec fn xspf_document(locs: Seq<Seq<char>>) -> Seq<char> {
    xspf_header() + track_entries(locs) + xspf_footer()
}

/// One more location appends one more entry.
proof fn lemma_track_entries_push(locs: Seq<Seq<char>>, l: Seq<char>)
    ensures
        track_entries(locs.push(l)) == track_entries(locs) + track_entry(l),
    decreases locs.len(),
{
    if locs.len() == 0 {
        assert(locs.push(l)[0] == l);
        assert(locs.push(l).drop_first() =~= locs);
        assert(track_entries(locs.push(l)) =~= track_entries(locs) + track_entry(l));
    } else {
        assert(locs.push(l)[0] == locs[0]);
        assert(locs.push(l).drop_first() =~= locs.drop_first().push(l));
        lemma_track_entries_push(locs.drop_first(), l);
        assert(track_entries(locs.push(l)) =~= track_entries(locs) + track_entry(l));
    }
}

/// Render the document for these location texts.
pub fn render_playlist(locs: &Vec<String>) -> (doc: String)
    ensures
        doc@ == xspf_document(track_views(locs@)),
{
    let mut out = String::new();
    out.append(
        "<?xml version=\"1.0\" encoding=\"UTF-8\"?>\n<playlist version=\"1\" xmlns=\"http://xspf.org/ns/0/\">\n    <title>Audio-Wrench Favorites</title>\n    <trackList>\n",
    );
    let ghost lv = track_views(locs@);
    let mut i: usize = 0;
    while i < locs.len()
        invariant
            lv == track_views(locs@),
            i <= locs@.len(),
            out@ == xspf_header() + track_entries(lv.take(i as int)),
        decreases locs@.len() - i,
    {
        proof {
            assert(lv[i as int] == locs@[i as int]@);
        }
        out.append("        <track>\n            <location>");
        append_escaped(&mut out, &locs[i]);
        out.append("</location>\n        </track>\n");
        proof {
            lemma_track_entries_push(lv.take(i as int), lv[i as int]);
            assert(lv.take(i as int + 1) =~= lv.take(i as int).push(lv[i as int]));
            assert(out@ =~= xspf_header() + track_entries(lv.take(i as int + 1)));
        }
        i = i + 1;
    }
    out.append("    </trackList>\n</playlist>\n");
    proof {
        assert(lv.take(locs@.len() as int) =~= lv);
        assert(out@ =~= xspf_document(lv));
    }
    out
}

/// Build the favorites export document: each reference becomes a track whose
/// location is the reference itself when already in `file:///` form, its
/// `file://` URL when it converts, and nothing when it does not (the
/// unverified glue logs those and writes the document to the chosen file).
pub fn write_playlist(files: &Vec<String>) -> (r: (String, Vec<bool>))
    ensures
        exists|locs: Seq<Seq<char>>|
            export_locations_ok(track_views(files@), locs) && r.0@ == #[trigger] xspf_document(
                locs,
            ),
        r.1@.len() == files@.len(),
{
    let (locs, kept) = track_locations(files);
    let doc = render_playlist(&locs);
    proof {
        assert(export_locations_ok(track_views(files@), track_views(locs@)) && doc@
            == xspf_document(track_views(locs@)));
    }
    (doc, kept)
}

} // verus!
