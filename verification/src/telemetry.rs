//! Project readings: lines of code by language, the project's language and
//! test coverage, from what the file system holds.
use vstd::prelude::*;

use crate::system::Overflow;
use crate::system::version_prefix;
use crate::text::chars_of;
use crate::text::contains;
use crate::text::ends_with;
use crate::text::find_at;
use crate::text::lines;
use crate::text::lines_of;
use crate::text::occurs_at;
use crate::text::parse_usize;
use crate::text::parse_usize_spec;
use crate::text::str_eq;
use crate::text::trim;
use crate::text::trim_str;
use crate::text::views;

verus! {

/// The language of a (lowercased) file extension; `other` when unknown.
pub open spec fn language_of_extension(e: Seq<char>) -> Seq<char> {
    if e == "rs"@ {
        "rust"@
    } else if e == "py"@ {
        "python"@
    } else if e == "go"@ {
        "go"@
    } else if e == "c"@ || e == "h"@ {
        "c"@
    } else if e == "cpp"@ || e == "cc"@ || e == "cxx"@ || e == "hpp"@ {
        "c++"@
    } else if e == "js"@ || e == "mjs"@ || e == "cjs"@ {
        "javascript"@
    } else if e == "ts"@ || e == "mts"@ || e == "cts"@ {
        "typescript"@
    } else if e == "tsx"@ || e == "jsx"@ {
        "react"@
    } else if e == "html"@ || e == "htm"@ {
        "html"@
    } else if e == "css"@ || e == "scss"@ || e == "sass"@ || e == "less"@ {
        "css"@
    } else if e == "sh"@ || e == "bash"@ || e == "zsh"@ {
        "shell"@
    } else if e == "lua"@ {
        "lua"@
    } else if e == "zig"@ {
        "zig"@
    } else if e == "toml"@ || e == "yaml"@ || e == "yml"@ || e == "json"@ {
        "config"@
    } else if e == "md"@ || e == "markdown"@ {
        "markdown"@
    } else if e == "java"@ {
        "java"@
    } else if e == "kt"@ || e == "kts"@ {
        "kotlin"@
    } else if e == "swift"@ {
        "swift"@
    } else if e == "rb"@ {
        "ruby"@
    } else if e == "php"@ {
        "php"@
    } else {
        "other"@
    }
}

/// The language of a lowercased file extension.
pub fn extension_to_lang(ext: &str) -> (r: &'static str)
    ensures
        r@ == language_of_extension(ext@),
{
    if str_eq(ext, "rs") {
        "rust"
    } else if str_eq(ext, "py") {
        "python"
    } else if str_eq(ext, "go") {
        "go"
    } else if str_eq(ext, "c") || str_eq(ext, "h") {
        "c"
    } else if str_eq(ext, "cpp") || str_eq(ext, "cc") || str_eq(ext, "cxx") || str_eq(ext, "hpp") {
        "c++"
    } else if str_eq(ext, "js") || str_eq(ext, "mjs") || str_eq(ext, "cjs") {
        "javascript"
    } else if str_eq(ext, "ts") || str_eq(ext, "mts") || str_eq(ext, "cts") {
        "typescript"
    } else if str_eq(ext, "tsx") || str_eq(ext, "jsx") {
        "react"
    } else if str_eq(ext, "html") || str_eq(ext, "htm") {
        "html"
    } else if str_eq(ext, "css") || str_eq(ext, "scss") || str_eq(ext, "sass") || str_eq(ext, "less") {
        "css"
    } else if str_eq(ext, "sh") || str_eq(ext, "bash") || str_eq(ext, "zsh") {
        "shell"
    } else if str_eq(ext, "lua") {
        "lua"
    } else if str_eq(ext, "zig") {
        "zig"
    } else if str_eq(ext, "toml") || str_eq(ext, "yaml") || str_eq(ext, "yml") || str_eq(ext, "json") {
        "config"
    } else if str_eq(ext, "md") || str_eq(ext, "markdown") {
        "markdown"
    } else if str_eq(ext, "java") {
        "java"
    } else if str_eq(ext, "kt") || str_eq(ext, "kts") {
        "kotlin"
    } else if str_eq(ext, "swift") {
        "swift"
    } else if str_eq(ext, "rb") {
        "ruby"
    } else if str_eq(ext, "php") {
        "php"
    } else {
        "other"
    }
}

/// Files larger than this many bytes are not counted.
pub const MAX_COUNT_BYTES: u64 = 1048576;

/// The language under which a file's lines are counted: none for unknown
/// extensions, for files whose size is unknown and for files over
/// `MAX_COUNT_BYTES`.
pub open spec fn counted_language_of(ext: Seq<char>, size: Option<u64>) -> Option<Seq<char>> {
    if language_of_extension(ext) == "other"@ {
        None
    } else if size matches Some(n) && n <= MAX_COUNT_BYTES {
        Some(language_of_extension(ext))
    } else {
        None
    }
}

/// Whether a file with this lowercased extension and size (when known) is
/// counted, and under which language.
pub fn counted_language(ext: &str, size: Option<u64>) -> (r: Option<&'static str>)
    ensures
        match r {
            Some(l) => counted_language_of(ext@, size) == Some(l@),
            None => counted_language_of(ext@, size) is None,
        },
{
    let lang = extension_to_lang(ext);
    if str_eq(lang, "other") {
        return None;
    }
    match size {
        Some(n) => if n <= MAX_COUNT_BYTES {
            Some(lang)
        } else {
            None
        },
        None => None,
    }
}

/// The sum of counts.
pub open spec fn total_of(counts: Seq<usize>) -> nat
    decreases counts.len(),
{
    if counts.len() == 0 {
        0
    } else {
        total_of(counts.drop_last()) + counts.last() as nat
    }
}

proof fn lemma_total_update(counts: Seq<usize>, i: int, v: usize)
    requires
        0 <= i < counts.len(),
    ensures
        total_of(counts.update(i, v)) == total_of(counts) - counts[i] + v,
        counts[i] <= total_of(counts),
    decreases counts.len(),
{
    if i < counts.len() - 1 {
        assert(counts.update(i, v).drop_last() =~= counts.drop_last().update(i, v));
        lemma_total_update(counts.drop_last(), i, v);
    } else {
        assert(counts.update(i, v).drop_last() =~= counts.drop_last());
    }
}

/// Where `lang` stands among `langs`.
pub open spec fn position_of(langs: Seq<Seq<char>>, lang: Seq<char>) -> Option<int> {
    if exists|i: int| 0 <= i < langs.len() && langs[i] == lang {
        Some(choose|i: int| 0 <= i < langs.len() && langs[i] == lang)
    } else {
        None
    }
}

/// Lines of code counted per language, in the order languages were first
/// met, with their total.
pub struct LineTally {
    total: usize,
    langs: Vec<String>,
    counts: Vec<usize>,
}

impl LineTally {
    /// All lines counted.
    pub closed spec fn total_spec(&self) -> nat {
        self.total as nat
    }

    /// The languages met, in order.
    pub closed spec fn langs_spec(&self) -> Seq<Seq<char>> {
        views(self.langs@)
    }

    /// The lines counted for each language of `langs_spec`.
    pub closed spec fn counts_spec(&self) -> Seq<usize> {
        self.counts@
    }

    /// Each language appears once, with a positive count, and the total is
    /// the sum of the counts.
    pub closed spec fn wf(&self) -> bool {
        &&& self.langs@.len() == self.counts@.len()
        &&& forall|i: int, j: int|
            0 <= i < j < self.langs@.len() ==> #[trigger] self.langs@[i]@ != #[trigger] self.langs@[j]@
        &&& forall|i: int| 0 <= i < self.counts@.len() ==> #[trigger] self.counts@[i] > 0
        &&& self.total as nat == total_of(self.counts@)
    }

    /// What well-formedness says, in terms of the public views.
    pub proof fn lemma_wf(&self)
        requires
            self.wf(),
        ensures
            self.langs_spec().len() == self.counts_spec().len(),
            self.total_spec() == total_of(self.counts_spec()),
            forall|i: int| 0 <= i < self.counts_spec().len() ==> #[trigger] self.counts_spec()[i] > 0,
            forall|i: int, j: int|
                0 <= i < j < self.langs_spec().len() ==> #[trigger] self.langs_spec()[i] != #[trigger] self.langs_spec()[j],
    {
    }

    /// Nothing counted yet.
    pub fn new() -> (r: Self)
        ensures
            r.wf(),
            r.total_spec() == 0,
            r.langs_spec() == Seq::<Seq<char>>::empty(),
            r.counts_spec() == Seq::<usize>::empty(),
    {
        let r = LineTally { total: 0, langs: Vec::new(), counts: Vec::new() };
        assert(views(r.langs@) =~= Seq::<Seq<char>>::empty());
        r
    }

    /// All lines counted.
    pub fn total_lines(&self) -> (r: usize)
        ensures
            r == self.total_spec(),
    {
        self.total
    }

    /// Adds a file of `lines` lines in `lang`: the total and the language's
    /// count grow by `lines` (a new language joins at the end); a file
    /// without lines changes nothing. An overflow of the total leaves the
    /// tally as it was.
    pub fn add(&mut self, lang: &str, lines: usize) -> (r: Result<(), Overflow>)
        requires
            old(self).wf(),
        ensures
            final(self).wf(),
            r is Err <==> lines > 0 && old(self).total_spec() + lines > usize::MAX,
            r is Err || lines == 0 ==> final(self).total_spec() == old(self).total_spec()
                && final(self).langs_spec() == old(self).langs_spec()
                && final(self).counts_spec() == old(self).counts_spec(),
            r is Ok && lines > 0 ==> {
                &&& final(self).total_spec() == old(self).total_spec() + lines
                &&& match position_of(old(self).langs_spec(), lang@) {
                    Some(i) => final(self).langs_spec() == old(self).langs_spec()
                        && final(self).counts_spec() == old(self).counts_spec().update(
                            i,
                            (old(self).counts_spec()[i] + lines) as usize,
                        ),
                    None => final(self).langs_spec() == old(self).langs_spec().push(lang@)
                        && final(self).counts_spec() == old(self).counts_spec().push(lines),
                }
            },
    {
        if lines == 0 {
            return Ok(());
        }
        if self.total > usize::MAX - lines {
            return Err(Overflow);
        }
        let mut i: usize = 0;
        while i < self.langs.len()
            invariant
                i <= self.langs.len(),
                self.wf(),
                *self == *old(self),
                self.total + lines <= usize::MAX,
                lines > 0,
                forall|j: int| 0 <= j < i ==> #[trigger] self.langs@[j]@ != lang@,
            decreases self.langs.len() - i,
        {
            if str_eq(self.langs[i].as_str(), lang) {
                proof {
                    lemma_total_update(self.counts@, i as int, (self.counts@[i as int] + lines) as usize);
                    assert(views(self.langs@)[i as int] == lang@);
                    let p = choose|k: int| 0 <= k < views(self.langs@).len() && views(self.langs@)[k] == lang@;
                    assert(views(self.langs@)[p] == self.langs@[p]@);
                    if p != i {
                        if p < i {
                            assert(self.langs@[p]@ != self.langs@[i as int]@);
                        } else {
                            assert(self.langs@[i as int]@ != self.langs@[p]@);
                        }
                    }
                }
                let c = self.counts[i] + lines;
                self.counts.set(i, c);
                self.total = self.total + lines;
                return Ok(());
            }
            i += 1;
        }
        proof {
            assert forall|k: int| 0 <= k < views(self.langs@).len() implies views(self.langs@)[k] != lang@ by {
                assert(views(self.langs@)[k] == self.langs@[k]@);
            }
            assert(self.counts@.push(lines).drop_last() =~= self.counts@);
        }
        self.langs.push(String::from_str(lang));
        self.counts.push(lines);
        self.total = self.total + lines;
        proof {
            assert(views(self.langs@) =~= views(old(self).langs@).push(lang@));
        }
        Ok(())
    }

    /// The language reported for the project with its line count: the code
    /// language (not `markdown`, `config` or `other`) with the most lines, the
    /// first met among equals; without code, the language with the most
    /// lines, the last met among equals; nothing when no lines were counted.
    pub fn top_language(&self) -> (r: Option<(String, usize)>)
        requires
            self.wf(),
        ensures
            match r {
                Some((l, n)) => top_language_of(self.total_spec(), self.langs_spec(), self.counts_spec()) == Some((l@, n)),
                None => top_language_of(self.total_spec(), self.langs_spec(), self.counts_spec()) is None,
            },
    {
        if self.total == 0 {
            return None;
        }
        let mut code: Option<usize> = None;
        let mut any: Option<usize> = None;
        let mut i: usize = 0;
        let ghost langs = views(self.langs@);
        while i < self.langs.len()
            invariant
                i <= self.langs.len() == self.counts.len(),
                langs == views(self.langs@),
                best_code(langs.take(i as int), self.counts@.take(i as int)) == match code {
                    Some(c) => Some(c as int),
                    None => None::<int>,
                },
                best_any(self.counts@.take(i as int)) == match any {
                    Some(c) => Some(c as int),
                    None => None::<int>,
                },
                code matches Some(c) ==> c < i,
                any matches Some(c) ==> c < i,
            decreases self.langs.len() - i,
        {
            let ghost lt = langs.take(i + 1);
            let ghost ct = self.counts@.take(i + 1);
            proof {
                assert(lt.drop_last() =~= langs.take(i as int));
                assert(ct.drop_last() =~= self.counts@.take(i as int));
                assert(lt.last() == self.langs@[i as int]@);
                assert(ct.last() == self.counts@[i as int]);
                if let Some(c) = code {
                    assert(ct[c as int] == self.counts@[c as int]);
                }
                if let Some(c) = any {
                    assert(ct[c as int] == self.counts@[c as int]);
                }
            }
            let l = self.langs[i].as_str();
            let n = self.counts[i];
            if !str_eq(l, "markdown") && !str_eq(l, "config") && !str_eq(l, "other") {
                match code {
                    None => {
                        code = Some(i);
                    },
                    Some(c) => {
                        if n > self.counts[c] {
                            code = Some(i);
                        }
                    },
                }
            }
            match any {
                None => {
                    any = Some(i);
                },
                Some(c) => {
                    if n >= self.counts[c] {
                        any = Some(i);
                    }
                },
            }
            i += 1;
        }
        proof {
            assert(langs.take(i as int) =~= langs);
            assert(self.counts@.take(i as int) =~= self.counts@);
        }
        let pick = match code {
            Some(c) => Some(c),
            None => any,
        };
        match pick {
            Some(c) => {
                assert(langs[c as int] == self.langs@[c as int]@);
                Some((self.langs[c].clone(), self.counts[c]))
            },
            None => None,
        }
    }
}

proof fn lemma_best_in_range(langs: Seq<Seq<char>>, counts: Seq<usize>)
    requires
        langs.len() == counts.len(),
    ensures
        best_code(langs, counts) matches Some(i) ==> 0 <= i < counts.len(),
        best_any(counts) matches Some(i) ==> 0 <= i < counts.len(),
    decreases counts.len(),
{
    if counts.len() > 0 {
        lemma_best_in_range(langs.drop_last(), counts.drop_last());
    }
}

/// The top language's line count is one of the counts, so it is positive and
/// never more than the total: its share is at most all of the lines.
pub proof fn law_top_language_within_total(t: LineTally)
    requires
        t.wf(),
    ensures
        top_language_of(t.total_spec(), t.langs_spec(), t.counts_spec()) matches Some((l, n)) ==> 0 < n <= t.total_spec(),
{
    t.lemma_wf();
    let counts = t.counts_spec();
    lemma_best_in_range(t.langs_spec(), counts);
    if let Some((l, n)) = top_language_of(t.total_spec(), t.langs_spec(), counts) {
        let i = match best_code(t.langs_spec(), counts) {
            Some(i) => i,
            None => best_any(counts)->0,
        };
        assert(n == counts[i]);
        lemma_total_update(counts, i, counts[i]);
    }
}

/// What `best_code` picks: a code language whose count no code language
/// beats, and one exists whenever some language is code.
proof fn lemma_best_code_is_max(langs: Seq<Seq<char>>, counts: Seq<usize>)
    requires
        langs.len() == counts.len(),
    ensures
        best_code(langs, counts) matches Some(k) ==> {
            &&& 0 <= k < langs.len()
            &&& is_code(langs[k])
            &&& forall|j: int| 0 <= j < langs.len() && is_code(#[trigger] langs[j]) ==> counts[j] <= counts[k]
            &&& forall|j: int| 0 <= j < k && is_code(#[trigger] langs[j]) ==> counts[j] < counts[k]
        },
        (exists|j: int| 0 <= j < langs.len() && is_code(#[trigger] langs[j])) ==> best_code(langs, counts) is Some,
    decreases langs.len(),
{
    if langs.len() > 0 {
        let pl = langs.drop_last();
        let pc = counts.drop_last();
        lemma_best_code_is_max(pl, pc);
        assert forall|j: int| 0 <= j < pl.len() implies pl[j] == langs[j] && pc[j] == counts[j] by {}
        if exists|j: int| 0 <= j < langs.len() && is_code(#[trigger] langs[j]) {
            let j = choose|j: int| 0 <= j < langs.len() && is_code(#[trigger] langs[j]);
            if j < langs.len() - 1 {
                assert(is_code(pl[j]));
            }
        }
    }
}

/// What `best_any` picks: a count no other count beats; there is one when
/// there are counts.
proof fn lemma_best_any_is_max(counts: Seq<usize>)
    ensures
        best_any(counts) matches Some(k) ==> {
            &&& 0 <= k < counts.len()
            &&& forall|j: int| 0 <= j < counts.len() ==> #[trigger] counts[j] <= counts[k]
            &&& forall|j: int| k < j < counts.len() ==> #[trigger] counts[j] < counts[k]
        },
        counts.len() > 0 ==> best_any(counts) is Some,
    decreases counts.len(),
{
    if counts.len() > 0 {
        let pc = counts.drop_last();
        lemma_best_any_is_max(pc);
        assert forall|j: int| 0 <= j < pc.len() implies pc[j] == counts[j] by {}
    }
}

/// The project's top language is code whenever there is code: if some
/// language of the tally other than `markdown`, `config` and `other` has
/// lines, the top language is one of those code languages, and no code
/// language has more lines. Without code, the top language is the one with
/// the most lines. Either way it is a language of the tally with its count;
/// among code languages with equal counts the first met wins, and without
/// code the last met among the most counted.
pub proof fn law_top_language_prefers_code(t: LineTally)
    requires
        t.wf(),
    ensures
        ({
            let langs = t.langs_spec();
            let counts = t.counts_spec();
            let top = top_language_of(t.total_spec(), langs, counts);
            &&& (exists|i: int|
                0 <= i < langs.len() && langs[i] != "markdown"@ && langs[i] != "config"@ && #[trigger] langs[i] != "other"@)
                ==> (top matches Some((l, n)) && {
                    &&& l != "markdown"@
                    &&& l != "config"@
                    &&& l != "other"@
                    &&& exists|k: int| 0 <= k < langs.len() && langs[k] == l && #[trigger] counts[k] == n && forall|j: int|
                        0 <= j < k && langs[j] != "markdown"@ && langs[j] != "config"@ && #[trigger] langs[j] != "other"@
                            ==> counts[j] < n
                    &&& forall|j: int|
                        0 <= j < langs.len() && langs[j] != "markdown"@ && langs[j] != "config"@ && #[trigger] langs[j] != "other"@
                            ==> counts[j] <= n
                })
            &&& (langs.len() > 0 && forall|i: int|
                0 <= i < langs.len() ==> #[trigger] langs[i] == "markdown"@ || langs[i] == "config"@ || langs[i] == "other"@)
                ==> (top matches Some((l, n)) && {
                    &&& exists|k: int| 0 <= k < langs.len() && langs[k] == l && #[trigger] counts[k] == n && forall|j: int|
                        k < j < langs.len() ==> #[trigger] counts[j] < n
                    &&& forall|j: int| 0 <= j < langs.len() ==> #[trigger] counts[j] <= n
                })
        }),
{
    t.lemma_wf();
    let langs = t.langs_spec();
    let counts = t.counts_spec();
    lemma_best_code_is_max(langs, counts);
    lemma_best_any_is_max(counts);
    if langs.len() > 0 {
        lemma_total_update(counts, 0, counts[0]);
        assert(t.total_spec() > 0);
    }
    if let Some(k) = best_code(langs, counts) {
        assert(langs[k] == langs[k] && counts[k] == counts[k]);
    } else if let Some(k) = best_any(counts) {
        assert(langs[k] == langs[k] && counts[k] == counts[k]);
    }
}

/// A language that counts as code for the project's top language.
pub open spec fn is_code(l: Seq<char>) -> bool {
    l != "markdown"@ && l != "config"@ && l != "other"@
}

/// The first code language with the most lines.
pub open spec fn best_code(langs: Seq<Seq<char>>, counts: Seq<usize>) -> Option<int>
    decreases langs.len(),
{
    if langs.len() == 0 || counts.len() == 0 {
        None
    } else {
        let prev = best_code(langs.drop_last(), counts.drop_last());
        if is_code(langs.last()) && (prev is None || counts.last() > counts[prev->0]) {
            Some(langs.len() - 1)
        } else {
            prev
        }
    }
}

/// The last language with the most lines.
pub open spec fn best_any(counts: Seq<usize>) -> Option<int>
    decreases counts.len(),
{
    if counts.len() == 0 {
        None
    } else {
        let prev = best_any(counts.drop_last());
        if prev is None || counts.last() >= counts[prev->0] {
            Some(counts.len() - 1)
        } else {
            prev
        }
    }
}

/// The top language of a tally and its line count.
pub open spec fn top_language_of(total: nat, langs: Seq<Seq<char>>, counts: Seq<usize>) -> Option<(Seq<char>, usize)> {
    if total == 0 {
        None
    } else {
        match best_code(langs, counts) {
            Some(i) => Some((langs[i], counts[i])),
            None => match best_any(counts) {
                Some(i) => Some((langs[i], counts[i])),
                None => None,
            },
        }
    }
}

/// The number on an lcov `LF:` or `LH:` line (`p` is the prefix): what
/// follows the prefix, trimmed, read as `usize`; 0 when the line lacks the
/// prefix or the number does not read.
pub open spec fn lcov_value(line: Seq<char>, p: Seq<char>) -> nat {
    if p.is_prefix_of(line) {
        match parse_usize_spec(trim(line.skip(p.len() as int))) {
            Some(v) => v as nat,
            None => 0,
        }
    } else {
        0
    }
}

/// Lines found (`LF:`) and lines hit (`LH:`), summed over an lcov report.
pub open spec fn lcov_sums(ls: Seq<Seq<char>>) -> (nat, nat)
    decreases ls.len(),
{
    if ls.len() == 0 {
        (0, 0)
    } else {
        let (f, h) = lcov_sums(ls.drop_last());
        let l = ls.last();
        if "LF:"@.is_prefix_of(l) {
            (f + lcov_value(l, "LF:"@), h)
        } else if "LH:"@.is_prefix_of(l) {
            (f, h + lcov_value(l, "LH:"@))
        } else {
            (f, h)
        }
    }
}

proof fn lemma_lcov_sums_add(x: Seq<Seq<char>>, y: Seq<Seq<char>>)
    ensures
        lcov_sums(x + y) == (lcov_sums(x).0 + lcov_sums(y).0, lcov_sums(x).1 + lcov_sums(y).1),
    decreases y.len(),
{
    if y.len() == 0 {
        assert(x + y =~= x);
    } else {
        assert((x + y).drop_last() =~= x + y.drop_last());
        assert((x + y).last() == y.last());
        lemma_lcov_sums_add(x, y.drop_last());
    }
}

/// lcov reports add up: a report made of two reports, the first ending its
/// last line, finds and hits as many lines as the two together.
pub proof fn law_lcov_reports_add(a: Seq<char>, b: Seq<char>)
    requires
        a.len() > 0,
        a.last() == '\n',
    ensures
        lcov_sums(lines(a + b)) == (
            lcov_sums(lines(a)).0 + lcov_sums(lines(b)).0,
            lcov_sums(lines(a)).1 + lcov_sums(lines(b)).1,
        ),
{
    crate::text::lemma_lines_append(a, b);
    lemma_lcov_sums_add(lines(a), lines(b));
}

/// What one line of an lcov report counts: `LF:n` finds `n` lines, `LH:n`
/// hits `n` lines, and a line that begins with neither counts nothing.
pub proof fn law_lcov_line_counts(n: nat, l: Seq<char>)
    requires
        n <= usize::MAX,
    ensures
        lcov_sums(seq!["LF:"@ + crate::text::decimal(n)]) == (n, 0nat),
        lcov_sums(seq!["LH:"@ + crate::text::decimal(n)]) == (0nat, n),
        !"LF:"@.is_prefix_of(l) && !"LH:"@.is_prefix_of(l) ==> lcov_sums(seq![l]) == (0nat, 0nat),
{
    reveal_strlit("LF:");
    reveal_strlit("LH:");
    let d = crate::text::decimal(n);
    crate::text::law_decimal_reads_back(n);
    assert(!crate::text::is_ws(d[0]) && !crate::text::is_ws(d[d.len() - 1]));
    crate::text::lemma_span_is(d, |c: char| crate::text::is_ws(c), 0);
    assert(d.skip(0) =~= d);
    crate::text::lemma_rspan_is(d, |c: char| crate::text::is_ws(c), 0);
    assert(d.take(d.len() - 0) =~= d);
    assert(trim(d) == d);
    let f = "LF:"@ + d;
    let h = "LH:"@ + d;
    assert(f.subrange(0, 3) =~= "LF:"@);
    assert(h.subrange(0, 3) =~= "LH:"@);
    assert(f.skip(3) =~= d);
    assert(h.skip(3) =~= d);
    assert(h[1] != "LF:"@[1]);
    assert(!"LF:"@.is_prefix_of(h));
    assert(seq![f].drop_last() =~= Seq::<Seq<char>>::empty());
    assert(seq![h].drop_last() =~= Seq::<Seq<char>>::empty());
    assert(seq![l].drop_last() =~= Seq::<Seq<char>>::empty());
    assert(lcov_value(f, "LF:"@) == n);
    assert(lcov_value(h, "LH:"@) == n);
    assert("LF:"@.is_prefix_of(f));
    assert("LH:"@.is_prefix_of(h));
    assert(lcov_sums(Seq::<Seq<char>>::empty()) == (0nat, 0nat));
    assert(seq![f].last() == f);
    assert(seq![h].last() == h);
}

/// The sums of an lcov report, or an overflow when either does not fit.
pub open spec fn lcov_totals_of(content: Seq<char>) -> Result<(usize, usize), Overflow> {
    let (f, h) = lcov_sums(lines(content));
    if f > usize::MAX || h > usize::MAX {
        Err(Overflow)
    } else {
        Ok((f as usize, h as usize))
    }
}

proof fn lemma_lcov_sums_grow(ls: Seq<Seq<char>>, i: int)
    requires
        0 <= i <= ls.len(),
    ensures
        lcov_sums(ls.take(i)).0 <= lcov_sums(ls).0,
        lcov_sums(ls.take(i)).1 <= lcov_sums(ls).1,
    decreases ls.len() - i,
{
    if i < ls.len() {
        lemma_lcov_sums_grow(ls, i + 1);
        assert(ls.take(i + 1).drop_last() =~= ls.take(i));
    } else {
        assert(ls.take(i) =~= ls);
    }
}

fn lcov_value_of(line: &str, p: &str) -> (r: usize)
    requires
        p@.is_prefix_of(line@),
    ensures
        r == lcov_value(line@, p@),
{
    let v = chars_of(line);
    let pv = chars_of(p);
    let rest = crate::text::substring(&v, pv.len(), v.len());
    assert(rest@ =~= line@.skip(p@.len() as int));
    let t = trim_str(rest.as_str());
    match parse_usize(t.as_str()) {
        Some(n) => n,
        None => 0,
    }
}

/// Lines found and hit in an lcov report (the sums of its `LF:` and `LH:`
/// numbers).
pub fn lcov_totals(content: &str) -> (r: Result<(usize, usize), Overflow>)
    ensures
        r == lcov_totals_of(content@),
{
    let ls = lines_of(content);
    let ghost all = views(ls@);
    let mut found: usize = 0;
    let mut hit: usize = 0;
    let mut i: usize = 0;
    assert(all.take(0) =~= Seq::<Seq<char>>::empty());
    while i < ls.len()
        invariant
            i <= ls.len(),
            all == views(ls@),
            all == lines(content@),
            (found as nat, hit as nat) == lcov_sums(all.take(i as int)),
        decreases ls.len() - i,
    {
        let l = ls[i].as_str();
        proof {
            assert(all.take(i + 1).drop_last() =~= all.take(i as int));
            assert(all.take(i + 1).last() == l@);
        }
        if crate::text::starts_with(l, "LF:") {
            let v = lcov_value_of(l, "LF:");
            if found > usize::MAX - v {
                proof {
                    lemma_lcov_sums_grow(all, i + 1);
                }
                return Err(Overflow);
            }
            found = found + v;
        } else if crate::text::starts_with(l, "LH:") {
            let v = lcov_value_of(l, "LH:");
            if hit > usize::MAX - v {
                proof {
                    lemma_lcov_sums_grow(all, i + 1);
                }
                return Err(Overflow);
            }
            hit = hit + v;
        }
        i += 1;
    }
    assert(all.take(i as int) =~= all);
    Ok((found, hit))
}

/// The text of tarpaulin's coverage figure: the digits and dots right after
/// the first `"coverage":`; nothing when the report lacks that key.
pub open spec fn tarpaulin_figure_of(content: Seq<char>, r: Option<Seq<char>>) -> bool {
    let key = "\"coverage\":"@;
    match r {
        Some(t) => exists|i: int|
            occurs_at(content, key, i) && (forall|j: int| 0 <= j < i ==> !occurs_at(content, key, j))
                && t == version_prefix(#[trigger] content.skip(i + key.len())),
        None => !contains(content, key),
    }
}

/// The coverage figure's text from a tarpaulin JSON report.
pub fn tarpaulin_figure(content: &str) -> (r: Option<String>)
    ensures
        tarpaulin_figure_of(content@, match r {
            Some(t) => Some(t@),
            None => None,
        }),
{
    let v = chars_of(content);
    let key = chars_of("\"coverage\":");
    match find_at(&v, 0, &key) {
        Some(i) => {
            let end = v.len();
            let kl = key.len();
            assert(i + kl <= end);
            let start = i + kl;
            let rest = crate::text::substring(&v, start, v.len());
            assert(rest@ =~= content@.skip(i + key@.len()));
            let fig = crate::system::version_prefix_of(rest.as_str());
            Some(fig)
        },
        None => None,
    }
}

/// Whether `names` holds `n`.
pub open spec fn has_name(names: Seq<Seq<char>>, n: Seq<char>) -> bool {
    exists|i: int| 0 <= i < names.len() && names[i] == n
}

/// Whether some name of `names` ends with `e`.
pub open spec fn has_extension(names: Seq<Seq<char>>, e: Seq<char>) -> bool {
    exists|i: int| 0 <= i < names.len() && e.is_suffix_of(names[i])
}

fn has_name_of(names: &Vec<String>, n: &str) -> (r: bool)
    ensures
        r == has_name(views(names@), n@),
{
    let mut i: usize = 0;
    while i < names.len()
        invariant
            i <= names.len(),
            forall|j: int| 0 <= j < i ==> #[trigger] views(names@)[j] != n@,
        decreases names.len() - i,
    {
        assert(views(names@)[i as int] == names@[i as int]@);
        if str_eq(names[i].as_str(), n) {
            return true;
        }
        i += 1;
    }
    false
}

fn has_extension_of(names: &Vec<String>, e: &str) -> (r: bool)
    ensures
        r == has_extension(views(names@), e@),
{
    let mut i: usize = 0;
    while i < names.len()
        invariant
            i <= names.len(),
            forall|j: int| 0 <= j < i ==> !e@.is_suffix_of(#[trigger] views(names@)[j]),
        decreases names.len() - i,
    {
        assert(views(names@)[i as int] == names@[i as int]@);
        if ends_with(names[i].as_str(), e) {
            return true;
        }
        i += 1;
    }
    false
}

/// The project's language from the (lowercased) names at its top level:
/// the first of a fixed list of markers that is present decides.
pub open spec fn project_language_of(names: Seq<Seq<char>>) -> Option<Seq<char>> {
    if has_name(names, "cargo.toml"@) || has_name(names, "cargo.lock"@) {
        Some("rust"@)
    } else if has_name(names, "go.mod"@) || has_extension(names, ".go"@) {
        Some("go"@)
    } else if has_name(names, "package.json"@) || has_name(names, "deno.json"@) {
        if has_name(names, "tsconfig.json"@) || has_extension(names, ".ts"@) || has_extension(names, ".tsx"@) {
            Some("typescript"@)
        } else {
            Some("javascript"@)
        }
    } else if has_name(names, "pyproject.toml"@) || has_name(names, "requirements.txt"@) || has_name(names, "setup.py"@) || has_name(names, "pipfile"@) || has_extension(names, ".py"@) {
        Some("python"@)
    } else if has_name(names, "pom.xml"@) || has_name(names, "build.gradle"@) || has_name(names, "build.gradle.kts"@) || has_extension(names, ".java"@) {
        Some("java"@)
    } else if has_name(names, "package.swift"@) {
        Some("swift"@)
    } else if has_name(names, "gemfile"@) || has_extension(names, ".rb"@) {
        Some("ruby"@)
    } else if has_name(names, "composer.json"@) || has_extension(names, ".php"@) {
        Some("php"@)
    } else if has_name(names, "build.zig"@) || has_name(names, "build.zig.zon"@) {
        Some("zig"@)
    } else if has_extension(names, ".kt"@) || has_extension(names, ".kts"@) {
        Some("kotlin"@)
    } else if has_extension(names, ".cabal"@) || has_name(names, "stack.yaml"@) || has_name(names, "package.yaml"@) || has_extension(names, ".hs"@) {
        Some("haskell"@)
    } else if has_extension(names, ".lua"@) {
        Some("lua"@)
    } else if has_extension(names, ".cpp"@) || has_extension(names, ".cc"@) || has_extension(names, ".cxx"@) || has_extension(names, ".hpp"@) {
        Some("c++"@)
    } else if has_extension(names, ".c"@) || has_name(names, "cmakelists.txt"@) || has_name(names, "makefile"@) {
        Some("c"@)
    } else if has_extension(names, ".sh"@) {
        Some("shell"@)
    } else {
        None
    }
}

/// Each marker file or extension of the top directory decides the project's
/// language when no marker of an earlier language is there, in this order:
/// Rust (`cargo.toml`, `cargo.lock`), Go (`go.mod`, `.go`), JavaScript or,
/// with `tsconfig.json`, `.ts` or `.tsx`, TypeScript (`package.json`,
/// `deno.json`), Python (`pyproject.toml`, `requirements.txt`, `setup.py`,
/// `pipfile`, `.py`), Java (`pom.xml`, `build.gradle`, `build.gradle.kts`,
/// `.java`), Swift (`package.swift`), Ruby (`gemfile`, `.rb`), PHP
/// (`composer.json`, `.php`), Zig (`build.zig`, `build.zig.zon`), Kotlin
/// (`.kt`, `.kts`), Haskell (`.cabal`, `stack.yaml`, `package.yaml`, `.hs`),
/// Lua (`.lua`), C++ (`.cpp`, `.cc`, `.cxx`, `.hpp`), C (`.c`,
/// `cmakelists.txt`, `makefile`), shell (`.sh`); without any marker there is
/// no language.
pub proof fn law_markers_decide_language(names: Seq<Seq<char>>)
    ensures
        (names.contains("cargo.toml"@) || names.contains("cargo.lock"@))
            ==> project_language_of(names) == Some("rust"@),
        (names.contains("go.mod"@) || (exists|i: int| 0 <= i < names.len() && ".go"@.is_suffix_of(#[trigger] names[i]))) && !names.contains("cargo.toml"@) && !names.contains("cargo.lock"@)
            ==> project_language_of(names) == Some("go"@),
        (names.contains("package.json"@) || names.contains("deno.json"@)) && !names.contains("cargo.toml"@) && !names.contains("cargo.lock"@) && !names.contains("go.mod"@) && !(exists|i: int| 0 <= i < names.len() && ".go"@.is_suffix_of(#[trigger] names[i])) && (names.contains("tsconfig.json"@) || (exists|i: int| 0 <= i < names.len() && ".ts"@.is_suffix_of(#[trigger] names[i])) || (exists|i: int| 0 <= i < names.len() && ".tsx"@.is_suffix_of(#[trigger] names[i])))
            ==> project_language_of(names) == Some("typescript"@),
        (names.contains("package.json"@) || names.contains("deno.json"@)) && !names.contains("cargo.toml"@) && !names.contains("cargo.lock"@) && !names.contains("go.mod"@) && !(exists|i: int| 0 <= i < names.len() && ".go"@.is_suffix_of(#[trigger] names[i])) && !(names.contains("tsconfig.json"@) || (exists|i: int| 0 <= i < names.len() && ".ts"@.is_suffix_of(#[trigger] names[i])) || (exists|i: int| 0 <= i < names.len() && ".tsx"@.is_suffix_of(#[trigger] names[i])))
            ==> project_language_of(names) == Some("javascript"@),
        (names.contains("pyproject.toml"@) || names.contains("requirements.txt"@) || names.contains("setup.py"@) || names.contains("pipfile"@) || (exists|i: int| 0 <= i < names.len() && ".py"@.is_suffix_of(#[trigger] names[i]))) && !names.contains("cargo.toml"@) && !names.contains("cargo.lock"@) && !names.contains("go.mod"@) && !(exists|i: int| 0 <= i < names.len() && ".go"@.is_suffix_of(#[trigger] names[i])) && !names.contains("package.json"@) && !names.contains("deno.json"@)
            ==> project_language_of(names) == Some("python"@),
        (names.contains("pom.xml"@) || names.contains("build.gradle"@) || names.contains("build.gradle.kts"@) || (exists|i: int| 0 <= i < names.len() && ".java"@.is_suffix_of(#[trigger] names[i]))) && !names.contains("cargo.toml"@) && !names.contains("cargo.lock"@) && !names.contains("go.mod"@) && !(exists|i: int| 0 <= i < names.len() && ".go"@.is_suffix_of(#[trigger] names[i])) && !names.contains("package.json"@) && !names.contains("deno.json"@) && !names.contains("pyproject.toml"@) && !names.contains("requirements.txt"@) && !names.contains("setup.py"@) && !names.contains("pipfile"@) && !(exists|i: int| 0 <= i < names.len() && ".py"@.is_suffix_of(#[trigger] names[i]))
            ==> project_language_of(names) == Some("java"@),
        (names.contains("package.swift"@)) && !names.contains("cargo.toml"@) && !names.contains("cargo.lock"@) && !names.contains("go.mod"@) && !(exists|i: int| 0 <= i < names.len() && ".go"@.is_suffix_of(#[trigger] names[i])) && !names.contains("package.json"@) && !names.contains("deno.json"@) && !names.contains("pyproject.toml"@) && !names.contains("requirements.txt"@) && !names.contains("setup.py"@) && !names.contains("pipfile"@) && !(exists|i: int| 0 <= i < names.len() && ".py"@.is_suffix_of(#[trigger] names[i])) && !names.contains("pom.xml"@) && !names.contains("build.gradle"@) && !names.contains("build.gradle.kts"@) && !(exists|i: int| 0 <= i < names.len() && ".java"@.is_suffix_of(#[trigger] names[i]))
            ==> project_language_of(names) == Some("swift"@),
        (names.contains("gemfile"@) || (exists|i: int| 0 <= i < names.len() && ".rb"@.is_suffix_of(#[trigger] names[i]))) && !names.contains("cargo.toml"@) && !names.contains("cargo.lock"@) && !names.contains("go.mod"@) && !(exists|i: int| 0 <= i < names.len() && ".go"@.is_suffix_of(#[trigger] names[i])) && !names.contains("package.json"@) && !names.contains("deno.json"@) && !names.contains("pyproject.toml"@) && !names.contains("requirements.txt"@) && !names.contains("setup.py"@) && !names.contains("pipfile"@) && !(exists|i: int| 0 <= i < names.len() && ".py"@.is_suffix_of(#[trigger] names[i])) && !names.contains("pom.xml"@) && !names.contains("build.gradle"@) && !names.contains("build.gradle.kts"@) && !(exists|i: int| 0 <= i < names.len() && ".java"@.is_suffix_of(#[trigger] names[i])) && !names.contains("package.swift"@)
            ==> project_language_of(names) == Some("ruby"@),
        (names.contains("composer.json"@) || (exists|i: int| 0 <= i < names.len() && ".php"@.is_suffix_of(#[trigger] names[i]))) && !names.contains("cargo.toml"@) && !names.contains("cargo.lock"@) && !names.contains("go.mod"@) && !(exists|i: int| 0 <= i < names.len() && ".go"@.is_suffix_of(#[trigger] names[i])) && !names.contains("package.json"@) && !names.contains("deno.json"@) && !names.contains("pyproject.toml"@) && !names.contains("requirements.txt"@) && !names.contains("setup.py"@) && !names.contains("pipfile"@) && !(exists|i: int| 0 <= i < names.len() && ".py"@.is_suffix_of(#[trigger] names[i])) && !names.contains("pom.xml"@) && !names.contains("build.gradle"@) && !names.contains("build.gradle.kts"@) && !(exists|i: int| 0 <= i < names.len() && ".java"@.is_suffix_of(#[trigger] names[i])) && !names.contains("package.swift"@) && !names.contains("gemfile"@) && !(exists|i: int| 0 <= i < names.len() && ".rb"@.is_suffix_of(#[trigger] names[i]))
            ==> project_language_of(names) == Some("php"@),
        (names.contains("build.zig"@) || names.contains("build.zig.zon"@)) && !names.contains("cargo.toml"@) && !names.contains("cargo.lock"@) && !names.contains("go.mod"@) && !(exists|i: int| 0 <= i < names.len() && ".go"@.is_suffix_of(#[trigger] names[i])) && !names.contains("package.json"@) && !names.contains("deno.json"@) && !names.contains("pyproject.toml"@) && !names.contains("requirements.txt"@) && !names.contains("setup.py"@) && !names.contains("pipfile"@) && !(exists|i: int| 0 <= i < names.len() && ".py"@.is_suffix_of(#[trigger] names[i])) && !names.contains("pom.xml"@) && !names.contains("build.gradle"@) && !names.contains("build.gradle.kts"@) && !(exists|i: int| 0 <= i < names.len() && ".java"@.is_suffix_of(#[trigger] names[i])) && !names.contains("package.swift"@) && !names.contains("gemfile"@) && !(exists|i: int| 0 <= i < names.len() && ".rb"@.is_suffix_of(#[trigger] names[i])) && !names.contains("composer.json"@) && !(exists|i: int| 0 <= i < names.len() && ".php"@.is_suffix_of(#[trigger] names[i]))
            ==> project_language_of(names) == Some("zig"@),
        ((exists|i: int| 0 <= i < names.len() && ".kt"@.is_suffix_of(#[trigger] names[i])) || (exists|i: int| 0 <= i < names.len() && ".kts"@.is_suffix_of(#[trigger] names[i]))) && !names.contains("cargo.toml"@) && !names.contains("cargo.lock"@) && !names.contains("go.mod"@) && !(exists|i: int| 0 <= i < names.len() && ".go"@.is_suffix_of(#[trigger] names[i])) && !names.contains("package.json"@) && !names.contains("deno.json"@) && !names.contains("pyproject.toml"@) && !names.contains("requirements.txt"@) && !names.contains("setup.py"@) && !names.contains("pipfile"@) && !(exists|i: int| 0 <= i < names.len() && ".py"@.is_suffix_of(#[trigger] names[i])) && !names.contains("pom.xml"@) && !names.contains("build.gradle"@) && !names.contains("build.gradle.kts"@) && !(exists|i: int| 0 <= i < names.len() && ".java"@.is_suffix_of(#[trigger] names[i])) && !names.contains("package.swift"@) && !names.contains("gemfile"@) && !(exists|i: int| 0 <= i < names.len() && ".rb"@.is_suffix_of(#[trigger] names[i])) && !names.contains("composer.json"@) && !(exists|i: int| 0 <= i < names.len() && ".php"@.is_suffix_of(#[trigger] names[i])) && !names.contains("build.zig"@) && !names.contains("build.zig.zon"@)
            ==> project_language_of(names) == Some("kotlin"@),
        (names.contains("stack.yaml"@) || names.contains("package.yaml"@) || (exists|i: int| 0 <= i < names.len() && ".cabal"@.is_suffix_of(#[trigger] names[i])) || (exists|i: int| 0 <= i < names.len() && ".hs"@.is_suffix_of(#[trigger] names[i]))) && !names.contains("cargo.toml"@) && !names.contains("cargo.lock"@) && !names.contains("go.mod"@) && !(exists|i: int| 0 <= i < names.len() && ".go"@.is_suffix_of(#[trigger] names[i])) && !names.contains("package.json"@) && !names.contains("deno.json"@) && !names.contains("pyproject.toml"@) && !names.contains("requirements.txt"@) && !names.contains("setup.py"@) && !names.contains("pipfile"@) && !(exists|i: int| 0 <= i < names.len() && ".py"@.is_suffix_of(#[trigger] names[i])) && !names.contains("pom.xml"@) && !names.contains("build.gradle"@) && !names.contains("build.gradle.kts"@) && !(exists|i: int| 0 <= i < names.len() && ".java"@.is_suffix_of(#[trigger] names[i])) && !names.contains("package.swift"@) && !names.contains("gemfile"@) && !(exists|i: int| 0 <= i < names.len() && ".rb"@.is_suffix_of(#[trigger] names[i])) && !names.contains("composer.json"@) && !(exists|i: int| 0 <= i < names.len() && ".php"@.is_suffix_of(#[trigger] names[i])) && !names.contains("build.zig"@) && !names.contains("build.zig.zon"@) && !(exists|i: int| 0 <= i < names.len() && ".kt"@.is_suffix_of(#[trigger] names[i])) && !(exists|i: int| 0 <= i < names.len() && ".kts"@.is_suffix_of(#[trigger] names[i]))
            ==> project_language_of(names) == Some("haskell"@),
        ((exists|i: int| 0 <= i < names.len() && ".lua"@.is_suffix_of(#[trigger] names[i]))) && !names.contains("cargo.toml"@) && !names.contains("cargo.lock"@) && !names.contains("go.mod"@) && !(exists|i: int| 0 <= i < names.len() && ".go"@.is_suffix_of(#[trigger] names[i])) && !names.contains("package.json"@) && !names.contains("deno.json"@) && !names.contains("pyproject.toml"@) && !names.contains("requirements.txt"@) && !names.contains("setup.py"@) && !names.contains("pipfile"@) && !(exists|i: int| 0 <= i < names.len() && ".py"@.is_suffix_of(#[trigger] names[i])) && !names.contains("pom.xml"@) && !names.contains("build.gradle"@) && !names.contains("build.gradle.kts"@) && !(exists|i: int| 0 <= i < names.len() && ".java"@.is_suffix_of(#[trigger] names[i])) && !names.contains("package.swift"@) && !names.contains("gemfile"@) && !(exists|i: int| 0 <= i < names.len() && ".rb"@.is_suffix_of(#[trigger] names[i])) && !names.contains("composer.json"@) && !(exists|i: int| 0 <= i < names.len() && ".php"@.is_suffix_of(#[trigger] names[i])) && !names.contains("build.zig"@) && !names.contains("build.zig.zon"@) && !(exists|i: int| 0 <= i < names.len() && ".kt"@.is_suffix_of(#[trigger] names[i])) && !(exists|i: int| 0 <= i < names.len() && ".kts"@.is_suffix_of(#[trigger] names[i])) && !names.contains("stack.yaml"@) && !names.contains("package.yaml"@) && !(exists|i: int| 0 <= i < names.len() && ".cabal"@.is_suffix_of(#[trigger] names[i])) && !(exists|i: int| 0 <= i < names.len() && ".hs"@.is_suffix_of(#[trigger] names[i]))
            ==> project_language_of(names) == Some("lua"@),
        ((exists|i: int| 0 <= i < names.len() && ".cpp"@.is_suffix_of(#[trigger] names[i])) || (exists|i: int| 0 <= i < names.len() && ".cc"@.is_suffix_of(#[trigger] names[i])) || (exists|i: int| 0 <= i < names.len() && ".cxx"@.is_suffix_of(#[trigger] names[i])) || (exists|i: int| 0 <= i < names.len() && ".hpp"@.is_suffix_of(#[trigger] names[i]))) && !names.contains("cargo.toml"@) && !names.contains("cargo.lock"@) && !names.contains("go.mod"@) && !(exists|i: int| 0 <= i < names.len() && ".go"@.is_suffix_of(#[trigger] names[i])) && !names.contains("package.json"@) && !names.contains("deno.json"@) && !names.contains("pyproject.toml"@) && !names.contains("requirements.txt"@) && !names.contains("setup.py"@) && !names.contains("pipfile"@) && !(exists|i: int| 0 <= i < names.len() && ".py"@.is_suffix_of(#[trigger] names[i])) && !names.contains("pom.xml"@) && !names.contains("build.gradle"@) && !names.contains("build.gradle.kts"@) && !(exists|i: int| 0 <= i < names.len() && ".java"@.is_suffix_of(#[trigger] names[i])) && !names.contains("package.swift"@) && !names.contains("gemfile"@) && !(exists|i: int| 0 <= i < names.len() && ".rb"@.is_suffix_of(#[trigger] names[i])) && !names.contains("composer.json"@) && !(exists|i: int| 0 <= i < names.len() && ".php"@.is_suffix_of(#[trigger] names[i])) && !names.contains("build.zig"@) && !names.contains("build.zig.zon"@) && !(exists|i: int| 0 <= i < names.len() && ".kt"@.is_suffix_of(#[trigger] names[i])) && !(exists|i: int| 0 <= i < names.len() && ".kts"@.is_suffix_of(#[trigger] names[i])) && !names.contains("stack.yaml"@) && !names.contains("package.yaml"@) && !(exists|i: int| 0 <= i < names.len() && ".cabal"@.is_suffix_of(#[trigger] names[i])) && !(exists|i: int| 0 <= i < names.len() && ".hs"@.is_suffix_of(#[trigger] names[i])) && !(exists|i: int| 0 <= i < names.len() && ".lua"@.is_suffix_of(#[trigger] names[i]))
            ==> project_language_of(names) == Some("c++"@),
        (names.contains("cmakelists.txt"@) || names.contains("makefile"@) || (exists|i: int| 0 <= i < names.len() && ".c"@.is_suffix_of(#[trigger] names[i]))) && !names.contains("cargo.toml"@) && !names.contains("cargo.lock"@) && !names.contains("go.mod"@) && !(exists|i: int| 0 <= i < names.len() && ".go"@.is_suffix_of(#[trigger] names[i])) && !names.contains("package.json"@) && !names.contains("deno.json"@) && !names.contains("pyproject.toml"@) && !names.contains("requirements.txt"@) && !names.contains("setup.py"@) && !names.contains("pipfile"@) && !(exists|i: int| 0 <= i < names.len() && ".py"@.is_suffix_of(#[trigger] names[i])) && !names.contains("pom.xml"@) && !names.contains("build.gradle"@) && !names.contains("build.gradle.kts"@) && !(exists|i: int| 0 <= i < names.len() && ".java"@.is_suffix_of(#[trigger] names[i])) && !names.contains("package.swift"@) && !names.contains("gemfile"@) && !(exists|i: int| 0 <= i < names.len() && ".rb"@.is_suffix_of(#[trigger] names[i])) && !names.contains("composer.json"@) && !(exists|i: int| 0 <= i < names.len() && ".php"@.is_suffix_of(#[trigger] names[i])) && !names.contains("build.zig"@) && !names.contains("build.zig.zon"@) && !(exists|i: int| 0 <= i < names.len() && ".kt"@.is_suffix_of(#[trigger] names[i])) && !(exists|i: int| 0 <= i < names.len() && ".kts"@.is_suffix_of(#[trigger] names[i])) && !names.contains("stack.yaml"@) && !names.contains("package.yaml"@) && !(exists|i: int| 0 <= i < names.len() && ".cabal"@.is_suffix_of(#[trigger] names[i])) && !(exists|i: int| 0 <= i < names.len() && ".hs"@.is_suffix_of(#[trigger] names[i])) && !(exists|i: int| 0 <= i < names.len() && ".lua"@.is_suffix_of(#[trigger] names[i])) && !(exists|i: int| 0 <= i < names.len() && ".cpp"@.is_suffix_of(#[trigger] names[i])) && !(exists|i: int| 0 <= i < names.len() && ".cc"@.is_suffix_of(#[trigger] names[i])) && !(exists|i: int| 0 <= i < names.len() && ".cxx"@.is_suffix_of(#[trigger] names[i])) && !(exists|i: int| 0 <= i < names.len() && ".hpp"@.is_suffix_of(#[trigger] names[i]))
            ==> project_language_of(names) == Some("c"@),
        ((exists|i: int| 0 <= i < names.len() && ".sh"@.is_suffix_of(#[trigger] names[i]))) && !names.contains("cargo.toml"@) && !names.contains("cargo.lock"@) && !names.contains("go.mod"@) && !(exists|i: int| 0 <= i < names.len() && ".go"@.is_suffix_of(#[trigger] names[i])) && !names.contains("package.json"@) && !names.contains("deno.json"@) && !names.contains("pyproject.toml"@) && !names.contains("requirements.txt"@) && !names.contains("setup.py"@) && !names.contains("pipfile"@) && !(exists|i: int| 0 <= i < names.len() && ".py"@.is_suffix_of(#[trigger] names[i])) && !names.contains("pom.xml"@) && !names.contains("build.gradle"@) && !names.contains("build.gradle.kts"@) && !(exists|i: int| 0 <= i < names.len() && ".java"@.is_suffix_of(#[trigger] names[i])) && !names.contains("package.swift"@) && !names.contains("gemfile"@) && !(exists|i: int| 0 <= i < names.len() && ".rb"@.is_suffix_of(#[trigger] names[i])) && !names.contains("composer.json"@) && !(exists|i: int| 0 <= i < names.len() && ".php"@.is_suffix_of(#[trigger] names[i])) && !names.contains("build.zig"@) && !names.contains("build.zig.zon"@) && !(exists|i: int| 0 <= i < names.len() && ".kt"@.is_suffix_of(#[trigger] names[i])) && !(exists|i: int| 0 <= i < names.len() && ".kts"@.is_suffix_of(#[trigger] names[i])) && !names.contains("stack.yaml"@) && !names.contains("package.yaml"@) && !(exists|i: int| 0 <= i < names.len() && ".cabal"@.is_suffix_of(#[trigger] names[i])) && !(exists|i: int| 0 <= i < names.len() && ".hs"@.is_suffix_of(#[trigger] names[i])) && !(exists|i: int| 0 <= i < names.len() && ".lua"@.is_suffix_of(#[trigger] names[i])) && !(exists|i: int| 0 <= i < names.len() && ".cpp"@.is_suffix_of(#[trigger] names[i])) && !(exists|i: int| 0 <= i < names.len() && ".cc"@.is_suffix_of(#[trigger] names[i])) && !(exists|i: int| 0 <= i < names.len() && ".cxx"@.is_suffix_of(#[trigger] names[i])) && !(exists|i: int| 0 <= i < names.len() && ".hpp"@.is_suffix_of(#[trigger] names[i])) && !names.contains("cmakelists.txt"@) && !names.contains("makefile"@) && !(exists|i: int| 0 <= i < names.len() && ".c"@.is_suffix_of(#[trigger] names[i]))
            ==> project_language_of(names) == Some("shell"@),
        !names.contains("cargo.toml"@) && !names.contains("cargo.lock"@) && !names.contains("go.mod"@) && !(exists|i: int| 0 <= i < names.len() && ".go"@.is_suffix_of(#[trigger] names[i])) && !names.contains("package.json"@) && !names.contains("deno.json"@) && !names.contains("pyproject.toml"@) && !names.contains("requirements.txt"@) && !names.contains("setup.py"@) && !names.contains("pipfile"@) && !(exists|i: int| 0 <= i < names.len() && ".py"@.is_suffix_of(#[trigger] names[i])) && !names.contains("pom.xml"@) && !names.contains("build.gradle"@) && !names.contains("build.gradle.kts"@) && !(exists|i: int| 0 <= i < names.len() && ".java"@.is_suffix_of(#[trigger] names[i])) && !names.contains("package.swift"@) && !names.contains("gemfile"@) && !(exists|i: int| 0 <= i < names.len() && ".rb"@.is_suffix_of(#[trigger] names[i])) && !names.contains("composer.json"@) && !(exists|i: int| 0 <= i < names.len() && ".php"@.is_suffix_of(#[trigger] names[i])) && !names.contains("build.zig"@) && !names.contains("build.zig.zon"@) && !(exists|i: int| 0 <= i < names.len() && ".kt"@.is_suffix_of(#[trigger] names[i])) && !(exists|i: int| 0 <= i < names.len() && ".kts"@.is_suffix_of(#[trigger] names[i])) && !names.contains("stack.yaml"@) && !names.contains("package.yaml"@) && !(exists|i: int| 0 <= i < names.len() && ".cabal"@.is_suffix_of(#[trigger] names[i])) && !(exists|i: int| 0 <= i < names.len() && ".hs"@.is_suffix_of(#[trigger] names[i])) && !(exists|i: int| 0 <= i < names.len() && ".lua"@.is_suffix_of(#[trigger] names[i])) && !(exists|i: int| 0 <= i < names.len() && ".cpp"@.is_suffix_of(#[trigger] names[i])) && !(exists|i: int| 0 <= i < names.len() && ".cc"@.is_suffix_of(#[trigger] names[i])) && !(exists|i: int| 0 <= i < names.len() && ".cxx"@.is_suffix_of(#[trigger] names[i])) && !(exists|i: int| 0 <= i < names.len() && ".hpp"@.is_suffix_of(#[trigger] names[i])) && !names.contains("cmakelists.txt"@) && !names.contains("makefile"@) && !(exists|i: int| 0 <= i < names.len() && ".c"@.is_suffix_of(#[trigger] names[i])) && !(exists|i: int| 0 <= i < names.len() && ".sh"@.is_suffix_of(#[trigger] names[i]))
            ==> project_language_of(names) is None,
{
}

/// The project's language from the lowercased names of the first entries
/// of its top directory.
pub fn language_from_names(names: &Vec<String>) -> (r: Option<&'static str>)
    ensures
        match r {
            Some(l) => project_language_of(views(names@)) == Some(l@),
            None => project_language_of(views(names@)) is None,
        },
{
    if has_name_of(names, "cargo.toml") || has_name_of(names, "cargo.lock") {
        Some("rust")
    } else if has_name_of(names, "go.mod") || has_extension_of(names, ".go") {
        Some("go")
    } else if has_name_of(names, "package.json") || has_name_of(names, "deno.json") {
        if has_name_of(names, "tsconfig.json") || has_extension_of(names, ".ts") || has_extension_of(names, ".tsx") {
            Some("typescript")
        } else {
            Some("javascript")
        }
    } else if has_name_of(names, "pyproject.toml") || has_name_of(names, "requirements.txt") || has_name_of(names, "setup.py") || has_name_of(names, "pipfile") || has_extension_of(names, ".py") {
        Some("python")
    } else if has_name_of(names, "pom.xml") || has_name_of(names, "build.gradle") || has_name_of(names, "build.gradle.kts") || has_extension_of(names, ".java") {
        Some("java")
    } else if has_name_of(names, "package.swift") {
        Some("swift")
    } else if has_name_of(names, "gemfile") || has_extension_of(names, ".rb") {
        Some("ruby")
    } else if has_name_of(names, "composer.json") || has_extension_of(names, ".php") {
        Some("php")
    } else if has_name_of(names, "build.zig") || has_name_of(names, "build.zig.zon") {
        Some("zig")
    } else if has_extension_of(names, ".kt") || has_extension_of(names, ".kts") {
        Some("kotlin")
    } else if has_extension_of(names, ".cabal") || has_name_of(names, "stack.yaml") || has_name_of(names, "package.yaml") || has_extension_of(names, ".hs") {
        Some("haskell")
    } else if has_extension_of(names, ".lua") {
        Some("lua")
    } else if has_extension_of(names, ".cpp") || has_extension_of(names, ".cc") || has_extension_of(names, ".cxx") || has_extension_of(names, ".hpp") {
        Some("c++")
    } else if has_extension_of(names, ".c") || has_name_of(names, "cmakelists.txt") || has_name_of(names, "makefile") {
        Some("c")
    } else if has_extension_of(names, ".sh") {
        Some("shell")
    } else {
        None
    }
}

} // verus!
