//! What a read-only viewer shows of a document: the text lines of a page, the whole text as
//! Markdown, and whether the package carries a signature.
use vstd::prelude::*;
use crate::archive::{entries_view, read_zip_entries, zip_entries, EntryView};
use crate::numtext::{decimal_chars, push_usize};
use crate::text::{chars_of, contains_str, find_in, push_str, str_eq, substring_of};

verus! {

/// A text read from the left: the non-empty lines finished so far, and the line being read.
pub open spec fn lines_so_far(t: Seq<char>) -> (Seq<Seq<char>>, Seq<char>)
    decreases t.len(),
{
    if t.len() == 0 {
        (Seq::empty(), Seq::empty())
    } else {
        let (done, cur) = lines_so_far(t.drop_last());
        if t.last() == '\n' {
            (
                if cur.len() > 0 {
                    done.push(cur)
                } else {
                    done
                },
                Seq::empty(),
            )
        } else {
            (done, cur.push(t.last()))
        }
    }
}

/// The non-empty pieces of `t` between `\n` characters, in order.
pub open spec fn text_lines(t: Seq<char>) -> Seq<Seq<char>> {
    let (done, cur) = lines_so_far(t);
    if cur.len() > 0 {
        done.push(cur)
    } else {
        done
    }
}

/// The lines of a page: those of each of its texts, in order.
pub open spec fn page_lines(texts: Seq<Seq<char>>) -> Seq<Seq<char>>
    decreases texts.len(),
{
    if texts.len() == 0 {
        Seq::empty()
    } else {
        page_lines(texts.drop_last()) + text_lines(texts.last())
    }
}

/// Strings as character sequences.
pub open spec fn strings_view(v: Seq<String>) -> Seq<Seq<char>> {
    v.map_values(|s: String| s@)
}

proof fn lemma_lines_step(t: Seq<char>, i: int, start: int)
    requires
        0 <= start <= i < t.len(),
        lines_so_far(t.take(i)).1 == t.subrange(start, i),
    ensures
        t[i] == '\n' ==> lines_so_far(t.take(i + 1)) == (
            if i > start {
                lines_so_far(t.take(i)).0.push(t.subrange(start, i))
            } else {
                lines_so_far(t.take(i)).0
            },
            Seq::<char>::empty(),
        ),
        t[i] != '\n' ==> lines_so_far(t.take(i + 1)) == (lines_so_far(t.take(i)).0, t.subrange(start, i + 1)),
{
    assert(t.take(i + 1).drop_last() == t.take(i));
    assert(t.take(i + 1).last() == t[i]);
    assert(t.subrange(start, i).push(t[i]) == t.subrange(start, i + 1));
}

/// The text lines of a page whose text objects hold `texts`: each text split at `\n`, with
/// empty pieces left out.
pub fn page_text_lines(texts: &[String]) -> (r: Vec<String>)
    ensures
        strings_view(r@) == page_lines(strings_view(texts@)),
{
    let mut out: Vec<String> = Vec::new();
    let mut k: usize = 0;
    while k < texts.len()
        invariant
            k <= texts@.len(),
            strings_view(out@) == page_lines(strings_view(texts@.take(k as int))),
        decreases texts@.len() - k,
    {
        let cs = chars_of(texts[k].as_str());
        let ghost t = cs@;
        let ghost base = out@;
        let mut start: usize = 0;
        let mut i: usize = 0;
        assert(t.take(0) == Seq::<char>::empty());
        assert(t.subrange(0, 0) == Seq::<char>::empty());
        while i < cs.len()
            invariant
                t == cs@,
                start <= i <= cs@.len(),
                lines_so_far(t.take(i as int)).1 == t.subrange(start as int, i as int),
                strings_view(out@) == strings_view(base) + lines_so_far(t.take(i as int)).0,
            decreases cs@.len() - i,
        {
            proof {
                lemma_lines_step(t, i as int, start as int);
            }
            if cs[i] == '\n' {
                if i > start {
                    let line = substring_of(cs.as_slice(), start, i);
                    let ghost before = out@;
                    out.push(line);
                    assert(strings_view(out@) =~= strings_view(before).push(t.subrange(start as int, i as int)));
                    assert(strings_view(out@) =~= strings_view(base) + lines_so_far(t.take(i + 1)).0);
                } else {
                    assert(strings_view(out@) =~= strings_view(base) + lines_so_far(t.take(i + 1)).0);
                }
                start = i + 1;
                assert(t.subrange(start as int, start as int) =~= Seq::<char>::empty());
            }
            i = i + 1;
        }
        assert(t.take(t.len() as int) == t);
        let ghost before = out@;
        if cs.len() > start {
            let line = substring_of(cs.as_slice(), start, cs.len());
            out.push(line);
            assert(strings_view(out@) =~= strings_view(before).push(t.subrange(start as int, t.len() as int)));
        }
        proof {
            assert(strings_view(out@) =~= strings_view(base) + text_lines(t));
            assert(strings_view(texts@.take(k + 1)).drop_last() =~= strings_view(texts@.take(k as int)));
            assert(strings_view(texts@.take(k + 1)).last() == t);
        }
        k = k + 1;
    }
    assert(texts@.take(texts@.len() as int) == texts@);
    out
}

/// The texts of a page one per line.
pub open spec fn join_lines(texts: Seq<Seq<char>>) -> Seq<char>
    decreases texts.len(),
{
    if texts.len() == 0 {
        Seq::empty()
    } else if texts.len() == 1 {
        texts[0]
    } else {
        join_lines(texts.drop_last()) + "\n"@ + texts.last()
    }
}

/// The Markdown of page `n` (from 1): its heading, then its texts one per line, or a note
/// that it has none.
pub open spec fn page_section(n: nat, texts: Seq<Seq<char>>) -> Seq<char> {
    "## 第 "@ + decimal_chars(n) + " 页\n"@ + (if texts.len() == 0 {
        "（无文本内容）"@
    } else {
        join_lines(texts)
    })
}

/// The Markdown of a document given the texts of each page: the page sections separated
/// by a blank line; nothing for a document without pages.
pub open spec fn markdown_of(pages: Seq<Seq<Seq<char>>>) -> Seq<char>
    decreases pages.len(),
{
    if pages.len() == 0 {
        Seq::empty()
    } else if pages.len() == 1 {
        page_section(1, pages[0])
    } else {
        markdown_of(pages.drop_last()) + "\n\n"@ + page_section(pages.len(), pages.last())
    }
}

/// Pages of texts as character sequences.
pub open spec fn pages_view(p: Seq<Vec<String>>) -> Seq<Seq<Seq<char>>> {
    p.map_values(|v: Vec<String>| strings_view(v@))
}

fn push_section(md: &mut String, n: usize, texts: &Vec<String>)
    ensures
        final(md)@ == old(md)@ + page_section(n as nat, strings_view(texts@)),
{
    let ghost start = md@;
    push_str(md, "## 第 ");
    push_usize(md, n);
    push_str(md, " 页\n");
    let ghost head = md@;
    if texts.len() == 0 {
        push_str(md, "（无文本内容）");
    } else {
        let mut j: usize = 0;
        while j < texts.len()
            invariant
                j <= texts@.len(),
                md@ == head + join_lines(strings_view(texts@.take(j as int))),
            decreases texts@.len() - j,
        {
            let ghost sv = strings_view(texts@.take(j + 1));
            assert(sv.drop_last() =~= strings_view(texts@.take(j as int)));
            assert(sv.last() == texts@[j as int]@);
            if j > 0 {
                push_str(md, "\n");
            } else {
                assert(strings_view(texts@.take(0)) =~= Seq::<Seq<char>>::empty());
            }
            push_str(md, texts[j].as_str());
            j = j + 1;
        }
        assert(texts@.take(texts@.len() as int) == texts@);
    }
}

/// The document's text as Markdown, from the texts of each page in order.
pub fn pages_to_markdown(pages: &[Vec<String>]) -> (r: String)
    ensures
        r@ == markdown_of(pages_view(pages@)),
{
    let mut md = String::new();
    let mut i: usize = 0;
    while i < pages.len()
        invariant
            i <= pages@.len(),
            md@ == markdown_of(pages_view(pages@.take(i as int))),
        decreases pages@.len() - i,
    {
        let ghost pv = pages_view(pages@.take(i + 1));
        assert(pv.drop_last() =~= pages_view(pages@.take(i as int)));
        assert(pv.last() == strings_view(pages@[i as int]@));
        if i > 0 {
            push_str(&mut md, "\n\n");
        } else {
            assert(pages_view(pages@.take(0)) =~= Seq::<Seq<Seq<char>>>::empty());
        }
        push_section(&mut md, i + 1, &pages[i]);
        i = i + 1;
    }
    assert(pages@.take(pages@.len() as int) == pages@);
    md
}

/// The package holds an entry at `path`.
pub open spec fn has_entry(es: Seq<EntryView>, path: Seq<char>) -> bool {
    exists|i: int| 0 <= i < es.len() && es[i].0 == path
}

/// The package holds an entry whose path contains `/Signs/`.
pub open spec fn has_signs_entry(es: Seq<EntryView>) -> bool {
    exists|i: int| 0 <= i < es.len() && find_in(es[i].0, "/Signs/"@) is Some
}

/// The signature summary of a package: `valid` with a `Doc_0/Signs/Signature.xml` entry,
/// `unsigned` with only other entries under a `Signs` directory, `no_signature` without
/// either, and `error` when the package cannot be read.
pub open spec fn signature_summary(es: Option<Seq<EntryView>>) -> Seq<char> {
    match es {
        None => "error"@,
        Some(es) => if has_entry(es, "Doc_0/Signs/Signature.xml"@) {
            "valid"@
        } else if has_signs_entry(es) {
            "unsigned"@
        } else {
            "no_signature"@
        },
    }
}

/// The signature summary of a package's bytes, from its entry paths alone (no signature is
/// checked). Every entry is read, so a package with an entry that cannot be read gives
/// `error`.
pub fn verify_signature_summary(raw: &[u8]) -> (r: String)
    ensures
        r@ == signature_summary(zip_entries(raw@)),
{
    let entries = match read_zip_entries(raw) {
        Ok(es) => es,
        Err(_) => return String::from_str("error"),
    };
    let ghost es = entries_view(entries@);
    let mut found_xml = false;
    let mut found_dir = false;
    let mut i: usize = 0;
    while i < entries.len()
        invariant
            es == entries_view(entries@),
            i <= entries@.len(),
            found_xml <==> exists|j: int| 0 <= j < i && es[j].0 == "Doc_0/Signs/Signature.xml"@,
            found_dir <==> exists|j: int| 0 <= j < i && find_in(es[j].0, "/Signs/"@) is Some,
        decreases entries@.len() - i,
    {
        assert(es[i as int].0 == entries@[i as int].0@);
        if str_eq(entries[i].0.as_str(), "Doc_0/Signs/Signature.xml") {
            found_xml = true;
        }
        if contains_str(entries[i].0.as_str(), "/Signs/") {
            found_dir = true;
        }
        i = i + 1;
    }
    if found_xml {
        String::from_str("valid")
    } else if found_dir {
        String::from_str("unsigned")
    } else {
        String::from_str("no_signature")
    }
}

} // verus!
