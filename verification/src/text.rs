//! Text helpers: suffixes and the name of the file that an entry is written to.

use vstd::prelude::*;

verus! {

/// Whether `text` ends with `suffix`.
pub open spec fn has_suffix(text: Seq<char>, suffix: Seq<char>) -> bool {
    suffix.len() <= text.len() && text.skip(text.len() - suffix.len()) == suffix
}

/// `text` without its last `n` characters.
pub open spec fn without_last(text: Seq<char>, n: nat) -> Seq<char> {
    text.take(text.len() - n)
}

/// Tells whether `text` ends with `suffix`.
fn ends_with(text: &str, suffix: &str) -> (found: bool)
    ensures
        found == has_suffix(text@, suffix@),
        found <==> exists|stem: Seq<char>| #[trigger] (stem + suffix@) == text@,
{
    let text_len: usize = text.unicode_len();
    let suffix_len: usize = suffix.unicode_len();
    proof {
        law_suffix_is_what_is_appended(text@, suffix@);
    }
    if suffix_len > text_len {
        return false;
    }
    let start: usize = text_len - suffix_len;
    let mut i: usize = 0;
    while i < suffix_len
        invariant
            i <= suffix_len,
            suffix_len == suffix@.len(),
            text_len == text@.len(),
            start == text_len - suffix_len,
            forall|j: int| 0 <= j < i ==> text@[start + j] == suffix@[j],
        decreases suffix_len - i,
    {
        if text.get_char(start + i) != suffix.get_char(i) {
            proof {
                assert(text@.skip(start as int)[i as int] != suffix@[i as int]);
            }
            return false;
        }
        i += 1;
    }
    proof {
        assert(text@.skip(start as int) =~= suffix@);
    }
    true
}

/// The part of `text` before `suffix`, if `text` ends with it.
fn strip_suffix<'a>(text: &'a str, suffix: &str) -> (rest: Option<&'a str>)
    ensures
        rest is Some <==> has_suffix(text@, suffix@),
        rest matches Some(r) ==> r@ == without_last(text@, suffix@.len()),
        rest matches Some(r) ==> r@ + suffix@ == text@,
{
    if ends_with(text, suffix) {
        let end: usize = text.unicode_len() - suffix.unicode_len();
        let rest = text.substring_char(0, end);
        proof {
            assert(rest@ + suffix@ =~= text@);
        }
        Some(rest)
    } else {
        None
    }
}

/// The name of the JavaScript file that is written for a module called `name`.
pub open spec fn javascript_name(name: Seq<char>) -> Seq<char> {
    if has_suffix(name, ".js"@) {
        name
    } else if has_suffix(name, ".ts"@) {
        without_last(name, 3) + ".js"@
    } else {
        name + ".js"@
    }
}

/// Names the JavaScript file that is written for the module file `file_name`:
/// a `.js` file keeps its name, a `.ts` file changes its extension, and any
/// other name gets `.js` appended.
pub fn javascript_file_name(file_name: &str) -> (name: String)
    ensures
        name@ == javascript_name(file_name@),
        forall|stem: Seq<char>| #[trigger]
            (stem + ".js"@) == file_name@ ==> name@ == file_name@,
        forall|stem: Seq<char>| #[trigger]
            (stem + ".ts"@) == file_name@ ==> name@ == stem + ".js"@,
        (forall|stem: Seq<char>|
            #![trigger (stem + ".js"@)]
            #![trigger (stem + ".ts"@)]
            stem + ".js"@ != file_name@ && stem + ".ts"@ != file_name@) ==> name@ == file_name@
            + ".js"@,
{
    proof {
        reveal_strlit(".ts");
        law_javascript_name_by_extension(file_name@);
    }
    if ends_with(file_name, ".js") {
        file_name.to_owned()
    } else if let Some(stem) = strip_suffix(file_name, ".ts") {
        stem.to_owned().concat(".js")
    } else {
        file_name.to_owned().concat(".js")
    }
}

/// Whatever the module is called, the file that is written ends with `.js`.
pub proof fn law_javascript_name_has_extension(name: Seq<char>)
    ensures
        has_suffix(javascript_name(name), ".js"@),
{
    let out = javascript_name(name);
    if !has_suffix(name, ".js"@) {
        assert(out.skip(out.len() - ".js"@.len()) =~= ".js"@);
    }
}

/// Naming the written file again changes nothing.
pub proof fn law_javascript_name_is_stable(name: Seq<char>)
    ensures
        javascript_name(javascript_name(name)) == javascript_name(name),
{
    law_javascript_name_has_extension(name);
}

/// A TypeScript module and the JavaScript module of the same stem are written
/// to the same file, and so is a module named by the stem alone, unless the
/// stem already ends with one of the two extensions.
pub proof fn law_extensions_share_a_file(stem: Seq<char>)
    ensures
        javascript_name(stem + ".ts"@) == stem + ".js"@,
        javascript_name(stem + ".js"@) == stem + ".js"@,
        !has_suffix(stem, ".js"@) && !has_suffix(stem, ".ts"@) ==> javascript_name(stem) == stem
            + ".js"@,
{
    reveal_strlit(".ts");
    reveal_strlit(".js");
    let ts = stem + ".ts"@;
    let js = stem + ".js"@;
    assert(ts.skip(ts.len() - 3) =~= ".ts"@);
    assert(js.skip(js.len() - 3) =~= ".js"@);
    assert(".ts"@[1] != ".js"@[1]);
    assert(without_last(ts, 3) =~= stem);
}

/// A text has a suffix exactly when it is some text with the suffix appended.
pub proof fn law_suffix_is_what_is_appended(text: Seq<char>, suffix: Seq<char>)
    ensures
        has_suffix(text, suffix) <==> exists|stem: Seq<char>| #[trigger] (stem + suffix) == text,
        forall|stem: Seq<char>| #[trigger]
            (stem + suffix) == text ==> without_last(text, suffix.len()) == stem,
{
    if has_suffix(text, suffix) {
        let stem = text.take(text.len() - suffix.len());
        assert(stem + suffix =~= text);
    }
    assert forall|stem: Seq<char>| #[trigger] (stem + suffix) == text implies has_suffix(
        text,
        suffix,
    ) && without_last(text, suffix.len()) == stem by {
        assert(text.skip(text.len() - suffix.len()) =~= suffix);
        assert(without_last(text, suffix.len()) =~= stem);
    }
}

/// A name that is some stem and `.js` is kept, of a name that is some stem and
/// `.ts` the stem is kept and gets `.js`, and every other name is kept whole and
/// gets `.js` behind it.
pub proof fn law_javascript_name_by_extension(name: Seq<char>)
    ensures
        forall|stem: Seq<char>| #[trigger]
            (stem + ".js"@) == name ==> javascript_name(name) == name,
        forall|stem: Seq<char>| #[trigger]
            (stem + ".ts"@) == name ==> javascript_name(name) == stem + ".js"@,
        (forall|stem: Seq<char>|
            #![trigger (stem + ".js"@)]
            #![trigger (stem + ".ts"@)]
            stem + ".js"@ != name && stem + ".ts"@ != name) ==> javascript_name(name) == name
            + ".js"@,
{
    assert forall|stem: Seq<char>| #[trigger] (stem + ".js"@) == name implies javascript_name(name)
        == name by {
        law_extensions_share_a_file(stem);
    }
    assert forall|stem: Seq<char>| #[trigger] (stem + ".ts"@) == name implies javascript_name(name)
        == stem + ".js"@ by {
        law_extensions_share_a_file(stem);
    }
    law_suffix_is_what_is_appended(name, ".js"@);
    law_suffix_is_what_is_appended(name, ".ts"@);
}

} // verus!
