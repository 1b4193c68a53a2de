//! Module kind detection and classic-script transformation.
//!
//! `detect_module_type` is a line scanner, not a parser: it looks for ESM
//! keywords (`export `, `export{`, `export default`, `import `, `import{`,
//! `import(`) at the start of `;`-separated fragments of non-comment lines,
//! skipping `//` lines and multi-line `/* ... */` blocks.
use vstd::prelude::*;
use crate::text::{chars_of, lossy_text, push_all, push_str, string_of, text_from_utf8_lossy};
use crate::vfs::isolate::IsolateVfs;
use crate::vfs::types::{last_slash, rfind_slash, VfsError};

verus! {

/// Type of JavaScript module being executed.
#[derive(Debug, Clone, Copy, PartialEq, Eq, Structural)]
pub enum ModuleType {
    /// ES Module with import/export syntax
    ESM,
    /// Classic script without module syntax
    Script,
}

/// Whether a character has the Unicode `White_Space` property, as
/// `char::is_whitespace` documents: tab through carriage return, space,
/// next line, no-break space, Ogham space mark, the spaces U+2000 to
/// U+200A, the line and paragraph separators, the narrow no-break space,
/// the medium mathematical space and the ideographic space.
pub open spec fn white_space(c: char) -> bool {
    let u = c as u32;
    ||| 0x09 <= u <= 0x0D
    ||| u == 0x20
    ||| u == 0x85
    ||| u == 0xA0
    ||| u == 0x1680
    ||| 0x2000 <= u <= 0x200A
    ||| u == 0x2028
    ||| u == 0x2029
    ||| u == 0x202F
    ||| u == 0x205F
    ||| u == 0x3000
}

/// `char::is_whitespace` (see `white_space`).
fn is_whitespace(c: char) -> (r: bool)
    ensures
        r == white_space(c),
{
    let u = c as u32;
    (0x09 <= u && u <= 0x0D) || u == 0x20 || u == 0x85 || u == 0xA0 || u == 0x1680 || (0x2000 <= u && u
        <= 0x200A) || u == 0x2028 || u == 0x2029 || u == 0x202F || u == 0x205F || u == 0x3000
}

/// The pieces of `s` between occurrences of `sep`, empty ones included.
pub open spec fn split_char(s: Seq<char>, sep: char) -> Seq<Seq<char>>
    decreases s.len(),
{
    if s.len() == 0 {
        seq![Seq::<char>::empty()]
    } else {
        let t = split_char(s.drop_last(), sep);
        if s.last() == sep {
            t.push(Seq::<char>::empty())
        } else {
            t.update(t.len() - 1, t.last().push(s.last()))
        }
    }
}

/// `s` without leading white space.
pub open spec fn trim_start(s: Seq<char>) -> Seq<char>
    decreases s.len(),
{
    if s.len() > 0 && white_space(s[0]) {
        trim_start(s.drop_first())
    } else {
        s
    }
}

/// `s` without trailing white space.
pub open spec fn trim_end(s: Seq<char>) -> Seq<char>
    decreases s.len(),
{
    if s.len() > 0 && white_space(s.last()) {
        trim_end(s.drop_last())
    } else {
        s
    }
}

/// `s` without leading or trailing white space (`str::trim`).
pub open spec fn trim(s: Seq<char>) -> Seq<char> {
    trim_end(trim_start(s))
}

/// Whether `p` occurs in `s` at index `i`.
pub open spec fn occurs_at(s: Seq<char>, p: Seq<char>, i: int) -> bool {
    0 <= i && i + p.len() <= s.len() && s.subrange(i, i + p.len()) == p
}

/// The first index at or after `i` where `p` occurs in `s`.
pub open spec fn find_from(s: Seq<char>, p: Seq<char>, i: int) -> Option<int>
    decreases s.len() + 1 - i,
{
    if i < 0 || i + p.len() > s.len() {
        None
    } else if occurs_at(s, p, i) {
        Some(i)
    } else {
        find_from(s, p, i + 1)
    }
}

/// A found index is an occurrence, at or after the starting index.
pub proof fn lemma_find_from_occurs(s: Seq<char>, p: Seq<char>, i: int)
    requires
        find_from(s, p, i) is Some,
    ensures
        occurs_at(s, p, find_from(s, p, i)->0),
        i <= find_from(s, p, i)->0,
    decreases s.len() + 1 - i,
{
    if i >= 0 && i + p.len() <= s.len() && !occurs_at(s, p, i) {
        lemma_find_from_occurs(s, p, i + 1);
    }
}

/// The first index where `p` occurs in `s` (`str::find`).
pub open spec fn find(s: Seq<char>, p: Seq<char>) -> Option<int> {
    find_from(s, p, 0)
}

/// Whether `s` starts with `p`.
pub open spec fn starts_with(s: Seq<char>, p: Seq<char>) -> bool {
    occurs_at(s, p, 0)
}

/// Whether a trimmed fragment starts with an ESM keyword form.
pub open spec fn esm_marker(f: Seq<char>) -> bool {
    ||| starts_with(f, "export "@)
    ||| starts_with(f, "export{"@)
    ||| starts_with(f, "export default"@)
    ||| starts_with(f, "import "@)
    ||| starts_with(f, "import{"@)
    ||| starts_with(f, "import("@)
}

/// Whether a trimmed line has a fragment (between `;`) that starts with an
/// ESM keyword once trimmed.
pub open spec fn line_has_marker(t: Seq<char>) -> bool {
    exists|j: int|
        0 <= j < split_char(t, ';').len() && #[trigger] esm_marker(trim(split_char(t, ';')[j]))
}

/// Whether a line outside a block comment opens a block comment that it
/// does not close after the opening.
pub open spec fn opens_block(t: Seq<char>) -> bool {
    match find(t, "/*"@) {
        None => false,
        Some(open) => match find(t, "*/"@) {
            None => true,
            Some(close) => close <= open,
        },
    }
}

/// Whether the scan of `lines`, starting inside a block comment or not,
/// meets an ESM marker.
pub open spec fn scan_lines(lines: Seq<Seq<char>>, in_block: bool) -> bool
    decreases lines.len(),
{
    if lines.len() == 0 {
        false
    } else {
        let t = trim(lines[0]);
        if in_block {
            scan_lines(lines.drop_first(), find(t, "*/"@) is None)
        } else if starts_with(t, "//"@) {
            scan_lines(lines.drop_first(), false)
        } else {
            line_has_marker(t) || scan_lines(lines.drop_first(), opens_block(t))
        }
    }
}

proof fn lemma_scan_step(lines: Seq<Seq<char>>, in_block: bool)
    requires
        lines.len() > 0,
    ensures
        scan_lines(lines, in_block) == ({
            let t = trim(lines[0]);
            if in_block {
                scan_lines(lines.drop_first(), find(t, "*/"@) is None)
            } else if starts_with(t, "//"@) {
                scan_lines(lines.drop_first(), false)
            } else {
                line_has_marker(t) || scan_lines(lines.drop_first(), opens_block(t))
            }
        }),
{
}

/// The module type of a source text.
pub open spec fn module_type_of(code: Seq<char>) -> ModuleType {
    if scan_lines(split_char(code, '\n'), false) {
        ModuleType::ESM
    } else {
        ModuleType::Script
    }
}

proof fn lemma_split_char_step(s: Seq<char>, sep: char, i: int)
    requires
        0 <= i < s.len(),
    ensures
        split_char(s.take(i + 1), sep) == if s[i] == sep {
            split_char(s.take(i), sep).push(Seq::<char>::empty())
        } else {
            let t = split_char(s.take(i), sep);
            t.update(t.len() - 1, t.last().push(s[i]))
        },
{
    assert(s.take(i + 1).drop_last() =~= s.take(i));
}

proof fn lemma_split_char_nonempty(s: Seq<char>, sep: char)
    ensures
        split_char(s, sep).len() >= 1,
    decreases s.len(),
{
    if s.len() > 0 {
        lemma_split_char_nonempty(s.drop_last(), sep);
    }
}

/// All pieces of `v` between occurrences of `sep`.
fn split_on(v: &Vec<char>, sep: char) -> (r: Vec<Vec<char>>)
    ensures
        part_views(r@) == split_char(v@, sep),
{
    let mut done: Vec<Vec<char>> = Vec::new();
    let mut cur: Vec<char> = Vec::new();
    let mut i: usize = 0;
    proof {
        assert(v@.take(0) =~= Seq::<char>::empty());
    }
    while i < v.len()
        invariant
            i <= v.len(),
            split_char(v@.take(i as int), sep).len() >= 1,
            cur@ == split_char(v@.take(i as int), sep).last(),
            part_views(done@) == split_char(v@.take(i as int), sep).drop_last(),
        decreases v.len() - i,
    {
        let c = v[i];
        let ghost t = split_char(v@.take(i as int), sep);
        proof {
            lemma_split_char_step(v@, sep, i as int);
            lemma_split_char_nonempty(v@.take(i + 1), sep);
        }
        if c == sep {
            let ghost before = part_views(done@);
            let mut piece: Vec<char> = Vec::new();
            std::mem::swap(&mut piece, &mut cur);
            done.push(piece);
            proof {
                assert(part_views(done@) =~= before.push(t.last()));
                assert(t.push(Seq::<char>::empty()).drop_last() =~= t);
                assert(t.drop_last().push(t.last()) =~= t);
            }
        } else {
            cur.push(c);
            proof {
                let u = t.update(t.len() - 1, t.last().push(c));
                assert(u.drop_last() =~= t.drop_last());
            }
        }
        i = i + 1;
    }
    proof {
        assert(v@.take(v.len() as int) =~= v@);
    }
    let ghost before = part_views(done@);
    let ghost t = split_char(v@, sep);
    done.push(cur);
    proof {
        assert(part_views(done@) =~= before.push(t.last()));
        assert(t.drop_last().push(t.last()) =~= t);
    }
    done
}

proof fn lemma_trim_start_skip(s: Seq<char>, a: int)
    requires
        0 <= a <= s.len(),
        forall|j: int| 0 <= j < a ==> white_space(#[trigger] s[j]),
    ensures
        trim_start(s) == trim_start(s.skip(a)),
    decreases a,
{
    if a > 0 {
        assert(s.len() > 0 && white_space(s[0]));
        let t = s.drop_first();
        assert(trim_start(s) == trim_start(t));
        assert forall|j: int| 0 <= j < a - 1 implies white_space(#[trigger] t[j]) by {
            assert(t[j] == s[j + 1]);
        }
        lemma_trim_start_skip(t, a - 1);
        assert(t.skip(a - 1) =~= s.skip(a));
    } else {
        assert(s.skip(0) =~= s);
    }
}

proof fn lemma_trim_end_take(s: Seq<char>, b: int)
    requires
        0 <= b <= s.len(),
        forall|j: int| b <= j < s.len() ==> white_space(#[trigger] s[j]),
    ensures
        trim_end(s) == trim_end(s.take(b)),
    decreases s.len() - b,
{
    if b < s.len() {
        assert(white_space(s[s.len() - 1]));
        let t = s.drop_last();
        assert(trim_end(s) == trim_end(t));
        assert forall|j: int| b <= j < t.len() implies white_space(#[trigger] t[j]) by {
            assert(t[j] == s[j]);
        }
        lemma_trim_end_take(t, b);
        assert(t.take(b) =~= s.take(b));
    } else {
        assert(s.take(b) =~= s);
    }
}

/// The characters of `v` without leading or trailing white space.
fn trimmed(v: &Vec<char>) -> (r: Vec<char>)
    ensures
        r@ == trim(v@),
{
    let mut a: usize = 0;
    while a < v.len() && is_whitespace(v[a])
        invariant
            a <= v.len(),
            forall|j: int| 0 <= j < a ==> white_space(#[trigger] v@[j]),
        decreases v.len() - a,
    {
        a = a + 1;
    }
    proof {
        lemma_trim_start_skip(v@, a as int);
    }
    let ghost s = v@.skip(a as int);
    assert(trim_start(s) == s);
    let mut b: usize = v.len();
    while b > a && is_whitespace(v[b - 1])
        invariant
            a <= b <= v.len(),
            forall|j: int| b <= j < v.len() ==> white_space(#[trigger] v@[j]),
        decreases b - a,
    {
        b = b - 1;
    }
    proof {
        assert forall|j: int| (b - a) <= j < s.len() implies white_space(#[trigger] s[j]) by {
            assert(s[j] == v@[j + a]);
        }
        lemma_trim_end_take(s, (b - a) as int);
        let u = s.take((b - a) as int);
        if u.len() > 0 {
            assert(u.last() == v@[b - 1]);
        }
        assert(trim_end(u) == u);
    }
    let mut r: Vec<char> = Vec::new();
    let mut k: usize = a;
    while k < b
        invariant
            a <= k <= b <= v.len(),
            r@ =~= v@.subrange(a as int, k as int),
        decreases b - k,
    {
        r.push(v[k]);
        k = k + 1;
    }
    proof {
        assert(r@ =~= s.take((b - a) as int));
    }
    r
}

/// Whether `p` occurs in `v` at index `i`.
pub(crate) fn occurs(v: &Vec<char>, p: &Vec<char>, i: usize) -> (r: bool)
    ensures
        r == occurs_at(v@, p@, i as int),
{
    if i > v.len() || p.len() > v.len() - i {
        return false;
    }
    let mut k: usize = 0;
    while k < p.len()
        invariant
            i + p.len() <= v.len(),
            k <= p.len(),
            forall|j: int| 0 <= j < k ==> v@[i + j] == p@[j],
        decreases p.len() - k,
    {
        if v[i + k] != p[k] {
            proof {
                assert(v@.subrange(i as int, i + p.len())[k as int] != p@[k as int]);
            }
            return false;
        }
        k = k + 1;
    }
    assert(v@.subrange(i as int, i + p.len()) =~= p@);
    true
}

/// The first index where `p` occurs in `v`.
pub(crate) fn find_in(v: &Vec<char>, p: &Vec<char>) -> (r: Option<usize>)
    ensures
        r matches Some(j) ==> find(v@, p@) == Some(j as int),
        r is None ==> find(v@, p@) is None,
{
    if p.len() > v.len() {
        return None;
    }
    let last = v.len() - p.len();
    let mut i: usize = 0;
    while i <= last
        invariant
            last + p.len() == v.len(),
            i <= last,
            find(v@, p@) == find_from(v@, p@, i as int),
        decreases last - i,
    {
        if occurs(v, p, i) {
            return Some(i);
        }
        if i == last {
            proof {
                assert(find_from(v@, p@, i + 1) is None);
            }
            return None;
        }
        i = i + 1;
    }
    None
}

fn marker_at_start(f: &Vec<char>) -> (r: bool)
    ensures
        r == esm_marker(f@),
{
    occurs(f, &chars_of("export "), 0) || occurs(f, &chars_of("export{"), 0) || occurs(
        f,
        &chars_of("export default"),
        0,
    ) || occurs(f, &chars_of("import "), 0) || occurs(f, &chars_of("import{"), 0) || occurs(
        f,
        &chars_of("import("),
        0,
    )
}

/// Whether a trimmed line has a fragment that starts with an ESM keyword.
fn line_marker(t: &Vec<char>) -> (r: bool)
    ensures
        r == line_has_marker(t@),
{
    let frags = split_on(t, ';');
    let ghost fv = part_views(frags@);
    let mut j: usize = 0;
    while j < frags.len()
        invariant
            j <= frags.len(),
            fv == part_views(frags@),
            fv == split_char(t@, ';'),
            forall|q: int| 0 <= q < j ==> !esm_marker(trim(#[trigger] fv[q])),
        decreases frags.len() - j,
    {
        let f = trimmed(&frags[j]);
        if marker_at_start(&f) {
            proof {
                assert(esm_marker(trim(fv[j as int])));
            }
            return true;
        }
        j = j + 1;
    }
    false
}

/// Detect the module type of a source text (see `module_type_of`).
pub fn detect_module_type(code: &str) -> (r: ModuleType)
    ensures
        r == module_type_of(code@),
{
    let chars = chars_of(code);
    let lines = split_on(&chars, '\n');
    let ghost all = part_views(lines@);
    let open_pat = chars_of("/*");
    let close_pat = chars_of("*/");
    let comment_pat = chars_of("//");
    let mut in_block = false;
    let mut i: usize = 0;
    proof {
        assert(all.skip(0) =~= all);
    }
    while i < lines.len()
        invariant
            i <= lines.len(),
            all == part_views(lines@),
            all == split_char(code@, '\n'),
            open_pat@ == "/*"@,
            close_pat@ == "*/"@,
            comment_pat@ == "//"@,
            scan_lines(all, false) == scan_lines(all.skip(i as int), in_block),
        decreases lines.len() - i,
    {
        let t = trimmed(&lines[i]);
        let ghost rest = all.skip(i as int);
        proof {
            assert(rest[0] == lines@[i as int]@);
            assert(rest.drop_first() =~= all.skip(i + 1));
            lemma_scan_step(rest, in_block);
        }
        let ghost was_in_block = in_block;
        if in_block {
            if find_in(&t, &close_pat).is_some() {
                in_block = false;
            }
        } else if occurs(&t, &comment_pat, 0) {
        } else {
            let has_open = find_in(&t, &open_pat);
            if let Some(open) = has_open {
                match find_in(&t, &close_pat) {
                    None => {
                        in_block = true;
                    },
                    Some(close) => {
                        if close <= open {
                            in_block = true;
                        }
                    },
                }
            }
            if line_marker(&t) {
                return ModuleType::ESM;
            }
            proof {
                assert(!line_has_marker(t@));
                assert(in_block == opens_block(t@));
            }
        }
        i = i + 1;
    }
    proof {
        assert(all.skip(lines.len() as int) =~= Seq::<Seq<char>>::empty());
    }
    ModuleType::Script
}

/// Whether a source text is an ES module.
pub fn is_esm_module(code: &str) -> (r: bool)
    ensures
        r == (module_type_of(code@) == ModuleType::ESM),
{
    match detect_module_type(code) {
        ModuleType::ESM => true,
        ModuleType::Script => false,
    }
}

/// `s` with every non-overlapping occurrence of `p` (left to right)
/// replaced by `q` (`str::replace`).
pub open spec fn replace_all(s: Seq<char>, p: Seq<char>, q: Seq<char>) -> Seq<char>
    decreases s.len(),
{
    if p.len() == 0 || s.len() == 0 {
        s
    } else if starts_with(s, p) {
        q + replace_all(s.skip(p.len() as int), p, q)
    } else {
        seq![s[0]] + replace_all(s.drop_first(), p, q)
    }
}

/// The code appended after a transformed default export: it copies the
/// handler's `fetch` to a separate global.
pub open spec fn handler_epilogue() -> Seq<char> {
    "\n\n// Extract handler function from export\nvar __nano_user_fetch = undefined;\nif (typeof __nano_handler === 'object' && __nano_handler.fetch) {\n    __nano_user_fetch = __nano_handler.fetch;\n}"@
}

/// The statement block that hands a transformed module's `fetch` method to
/// the runtime.
pub open spec fn fetch_handoff() -> Seq<char> {
    "if (typeof __nano_handler === 'object' && __nano_handler.fetch) {\n    __nano_user_fetch = __nano_handler.fetch;\n}"@
}

/// A transformed module ends by handing the handler's `fetch` method (not
/// the handler object) to `__nano_user_fetch`: whatever the module's code,
/// the text after it ends with `fetch_handoff()`, and `__nano_user_fetch`
/// is first declared undefined just before that block.
pub proof fn law_transform_hands_off_fetch(converted: Seq<char>)
    ensures
        ({
            let r = converted + handler_epilogue();
            let tail = "var __nano_user_fetch = undefined;\n"@ + fetch_handoff();
            &&& r.len() >= tail.len()
            &&& r.skip(r.len() - tail.len()) == tail
        }),
{
    reveal_strlit("\n\n// Extract handler function from export\nvar __nano_user_fetch = undefined;\nif (typeof __nano_handler === 'object' && __nano_handler.fetch) {\n    __nano_user_fetch = __nano_handler.fetch;\n}");
    reveal_strlit("if (typeof __nano_handler === 'object' && __nano_handler.fetch) {\n    __nano_user_fetch = __nano_handler.fetch;\n}");
    reveal_strlit("var __nano_user_fetch = undefined;\n");
    reveal_strlit("\n\n// Extract handler function from export\n");
    let tail = "var __nano_user_fetch = undefined;\n"@ + fetch_handoff();
    let head = "\n\n// Extract handler function from export\n"@;
    assert(handler_epilogue() =~= head + tail);
    let r = converted + handler_epilogue();
    assert(r =~= (converted + head) + tail);
    assert(r.skip(r.len() - tail.len()) =~= tail);
}

/// Transform `export default` modules for classic script execution: every
/// `export default` becomes `var __nano_handler =` and the handler
/// epilogue is appended. Code without `export default` is returned as is.
pub fn transform_module_code(code: &str) -> (r: String)
    ensures
        find(code@, "export default"@) is Some ==> r@ == replace_all(
            code@,
            "export default"@,
            "var __nano_handler ="@,
        ) + handler_epilogue(),
        find(code@, "export default"@) is None ==> r@ == code@,
{
    let chars = chars_of(code);
    let pat = chars_of("export default");
    let rep = chars_of("var __nano_handler =");
    if find_in(&chars, &pat).is_none() {
        return string_of(&chars);
    }
    proof {
        reveal_strlit("export default");
    }
    let out = replace_all_vec(&chars, &pat, &rep);
    let mut s = string_of(&out);
    push_str(&mut s, "\n\n// Extract handler function from export\nvar __nano_user_fetch = undefined;\nif (typeof __nano_handler === 'object' && __nano_handler.fetch) {\n    __nano_user_fetch = __nano_handler.fetch;\n}");
    s
}

/// Every occurrence of `pat` in `chars`, left to right and not
/// overlapping, replaced by `rep`.
pub(crate) fn replace_all_vec(chars: &Vec<char>, pat: &Vec<char>, rep: &Vec<char>) -> (r: Vec<char>)
    requires
        pat@.len() > 0,
    ensures
        r@ == replace_all(chars@, pat@, rep@),
{
    let mut out: Vec<char> = Vec::new();
    let mut i: usize = 0;
    proof {
        assert(chars@.skip(0) =~= chars@);
    }
    while i < chars.len()
        invariant
            i <= chars.len(),
            pat@.len() > 0,
            out@ + replace_all(chars@.skip(i as int), pat@, rep@) == replace_all(
                chars@,
                pat@,
                rep@,
            ),
        decreases chars.len() - i,
    {
        let ghost s = chars@.skip(i as int);
        if occurs(chars, pat, i) {
            proof {
                assert(s.subrange(0, pat@.len() as int) =~= chars@.subrange(i as int, i + pat@.len()));
                assert(s.skip(pat@.len() as int) =~= chars@.skip(i + pat@.len()));
            }
            let ghost before = out@;
            push_all_vec(&mut out, rep);
            i = i + pat.len();
            proof {
                assert(out@ =~= before + rep@);
            }
        } else {
            proof {
                assert(!starts_with(s, pat@)) by {
                    if starts_with(s, pat@) {
                        assert(s.subrange(0, pat@.len() as int) =~= chars@.subrange(
                            i as int,
                            i + pat@.len(),
                        ));
                    }
                }
                assert(s.drop_first() =~= chars@.skip(i + 1));
            }
            out.push(chars[i]);
            i = i + 1;
        }
    }
    proof {
        assert(chars@.skip(chars.len() as int) =~= Seq::<char>::empty());
    }
    out
}

pub(crate) fn push_all_vec(out: &mut Vec<char>, v: &Vec<char>)
    ensures
        final(out)@ == old(out)@ + v@,
{
    let mut k: usize = 0;
    while k < v.len()
        invariant
            k <= v.len(),
            out@ =~= old(out)@ + v@.take(k as int),
        decreases v.len() - k,
    {
        out.push(v[k]);
        k = k + 1;
    }
    assert(v@.take(v.len() as int) =~= v@);
}

} // verus!

verus! {

/// A path part that import resolution skips: empty, or `.`.
pub open spec fn skipped_part(c: Seq<char>) -> bool {
    c.len() == 0 || c == seq!['.']
}

/// The parts of a base directory that resolution starts from: all but the
/// skipped ones, in order.
pub open spec fn kept_parts(parts: Seq<Seq<char>>) -> Seq<Seq<char>>
    decreases parts.len(),
{
    if parts.len() == 0 {
        Seq::empty()
    } else if skipped_part(parts.last()) {
        kept_parts(parts.drop_last())
    } else {
        kept_parts(parts.drop_last()).push(parts.last())
    }
}

/// One step of resolution: a skipped part changes nothing, `..` leaves the
/// last directory (and fails where there is none), any other part enters.
pub open spec fn walk_step(dirs: Seq<Seq<char>>, c: Seq<char>) -> Option<Seq<Seq<char>>> {
    if skipped_part(c) {
        Some(dirs)
    } else if c == seq!['.', '.'] {
        if dirs.len() == 0 {
            None
        } else {
            Some(dirs.drop_last())
        }
    } else {
        Some(dirs.push(c))
    }
}

/// The steps of `parts`, left to right, from `dirs`.
pub open spec fn walk_parts(dirs: Seq<Seq<char>>, parts: Seq<Seq<char>>) -> Option<Seq<Seq<char>>>
    decreases parts.len(),
{
    if parts.len() == 0 {
        Some(dirs)
    } else {
        match walk_parts(dirs, parts.drop_last()) {
            None => None,
            Some(d) => walk_step(d, parts.last()),
        }
    }
}

/// Each part preceded by `/`.
pub open spec fn slashed(cs: Seq<Seq<char>>) -> Seq<char>
    decreases cs.len(),
{
    if cs.len() == 0 {
        Seq::empty()
    } else {
        slashed(cs.drop_last()) + seq!['/'] + cs.last()
    }
}

/// The absolute path of a list of directories: `/` for none.
pub open spec fn rooted(cs: Seq<Seq<char>>) -> Seq<char> {
    if cs.len() == 0 {
        seq!['/']
    } else {
        slashed(cs)
    }
}

/// The directory of a base path: what precedes its last `/`, or `.`.
pub open spec fn base_dir(base: Seq<char>) -> Seq<char> {
    match last_slash(base) {
        Some(i) => base.take(i),
        None => seq!['.'],
    }
}

/// The path a relative specifier names from `base`, or `None` where a `..`
/// climbs above the root.
pub open spec fn relative_target(base: Seq<char>, specifier: Seq<char>) -> Option<Seq<char>> {
    match walk_parts(kept_parts(split_char(base_dir(base), '/')), split_char(specifier, '/')) {
        Some(cs) => Some(rooted(cs)),
        None => None,
    }
}

/// Where a bare specifier's package entry point is looked for.
pub open spec fn bare_module_path(specifier: Seq<char>) -> Seq<char> {
    "/node_modules/"@ + specifier + "/index.js"@
}

/// How an import specifier resolves from `base`, given the VFS and whether
/// `node_modules/<specifier>/index.js` exists on disk:
/// - `nano:` built-ins and absolute paths are taken as they are;
/// - a bare specifier (not starting with `.`) names its package entry
///   point, which must be in the VFS or on disk;
/// - a relative specifier is resolved against the base's directory; a
///   result without any `.` gets `.js`, or else `.mjs`, appended where the
///   VFS holds that file.
pub open spec fn resolution(vfs: IsolateVfs, base: Seq<char>, specifier: Seq<char>, on_disk: bool) -> Result<
    Seq<char>,
    Seq<char>,
> {
    if starts_with(specifier, "nano:"@) {
        Ok(specifier)
    } else if specifier.len() > 0 && specifier[0] == '/' {
        Ok(specifier)
    } else if !(specifier.len() > 0 && specifier[0] == '.') {
        if vfs.has_file(bare_module_path(specifier)) || on_disk {
            Ok(bare_module_path(specifier))
        } else {
            Err("Cannot resolve bare specifier '"@ + specifier
                + "': not found in VFS /node_modules/ or disk node_modules/"@)
        }
    } else {
        match relative_target(base, specifier) {
            None => Err("Path traversal out of bounds: "@ + specifier + " from "@ + base),
            Some(p) => if !p.contains('.') && vfs.has_file(p + ".js"@) {
                Ok(p + ".js"@)
            } else if !p.contains('.') && vfs.has_file(p + ".mjs"@) {
                Ok(p + ".mjs"@)
            } else {
                Ok(p)
            },
        }
    }
}

/// The character views of a list of character vectors.
pub open spec fn part_views(v: Seq<Vec<char>>) -> Seq<Seq<char>> {
    v.map_values(|x: Vec<char>| x@)
}

/// The module map of a cache list: each path with its handle (a later entry
/// wins at a repeated path).
pub open spec fn cache_map(es: Seq<(String, u64)>) -> Map<Seq<char>, u64>
    decreases es.len(),
{
    if es.len() == 0 {
        Map::empty()
    } else {
        cache_map(es.drop_last()).insert(es.last().0@, es.last().1)
    }
}

/// No path occurs twice in a cache list.
pub open spec fn cache_keys_distinct(es: Seq<(String, u64)>) -> bool {
    forall|i: int, j: int|
        0 <= i < es.len() && 0 <= j < es.len() && i != j ==> #[trigger] es[i].0@ != #[trigger] es[j].0@
}

proof fn lemma_cache_lookup(es: Seq<(String, u64)>, i: int)
    requires
        cache_keys_distinct(es),
        0 <= i < es.len(),
    ensures
        cache_map(es).contains_key(es[i].0@),
        cache_map(es)[es[i].0@] == es[i].1,
    decreases es.len(),
{
    if i < es.len() - 1 {
        lemma_cache_lookup(es.drop_last(), i);
        assert(es[i].0@ != es[es.len() - 1].0@);
    }
}

proof fn lemma_cache_absent(es: Seq<(String, u64)>, k: Seq<char>)
    requires
        forall|i: int| 0 <= i < es.len() ==> #[trigger] es[i].0@ != k,
    ensures
        !cache_map(es).contains_key(k),
    decreases es.len(),
{
    if es.len() > 0 {
        lemma_cache_absent(es.drop_last(), k);
        assert(es.last().0@ != k);
    }
}

proof fn lemma_cache_update(es: Seq<(String, u64)>, i: int, e: (String, u64))
    requires
        cache_keys_distinct(es),
        0 <= i < es.len(),
        e.0@ == es[i].0@,
    ensures
        cache_map(es.update(i, e)) == cache_map(es).insert(e.0@, e.1),
    decreases es.len(),
{
    let u = es.update(i, e);
    if i == es.len() - 1 {
        assert(u.drop_last() =~= es.drop_last());
        assert(cache_map(u) =~= cache_map(es).insert(e.0@, e.1));
    } else {
        assert(u.drop_last() =~= es.drop_last().update(i, e));
        lemma_cache_update(es.drop_last(), i, e);
        assert(es.last().0@ != e.0@) by {
            assert(es[es.len() - 1].0@ != es[i].0@);
        }
        assert(cache_map(u) =~= cache_map(es).insert(e.0@, e.1));
    }
}

proof fn lemma_walk_none(dirs: Seq<Seq<char>>, parts: Seq<Seq<char>>, n: int)
    requires
        0 <= n <= parts.len(),
        walk_parts(dirs, parts.take(n)) is None,
    ensures
        walk_parts(dirs, parts) is None,
    decreases parts.len() - n,
{
    if n == parts.len() {
        assert(parts.take(n) =~= parts);
    } else {
        assert(parts.take(n + 1).drop_last() =~= parts.take(n));
        lemma_walk_none(dirs, parts, n + 1);
    }
}

/// Whether `c` is empty or `.`.
fn is_skipped(c: &Vec<char>) -> (r: bool)
    ensures
        r == skipped_part(c@),
{
    if c.len() == 0 {
        return true;
    }
    if c.len() == 1 && c[0] == '.' {
        assert(c@ =~= seq!['.']);
        return true;
    }
    assert(c@.len() != 1 || c@[0] != '.');
    false
}

/// Whether `c` is `..`.
fn is_dot_dot(c: &Vec<char>) -> (r: bool)
    ensures
        r == (c@ == seq!['.', '.']),
{
    if c.len() == 2 && c[0] == '.' && c[1] == '.' {
        assert(c@ =~= seq!['.', '.']);
        return true;
    }
    assert(c@.len() != 2 || c@[0] != '.' || c@[1] != '.');
    false
}

/// Whether `v` holds `c`.
fn has_char(v: &Vec<char>, c: char) -> (r: bool)
    ensures
        r == v@.contains(c),
{
    let mut i: usize = 0;
    while i < v.len()
        invariant
            i <= v.len(),
            forall|j: int| 0 <= j < i ==> v@[j] != c,
        decreases v.len() - i,
    {
        if v[i] == c {
            assert(v@[i as int] == c);
            return true;
        }
        i = i + 1;
    }
    false
}

/// A copy of a character vector.
fn copy_chars(v: &Vec<char>) -> (r: Vec<char>)
    ensures
        r@ == v@,
{
    let mut r: Vec<char> = Vec::new();
    push_all_vec(&mut r, v);
    assert(r@ =~= v@);
    r
}

/// The start of an import: what the resolve callback does for a resolved
/// path before anything is compiled.
#[derive(Debug, Clone, Copy, PartialEq, Eq)]
pub enum ImportStart {
    /// The path is already being loaded: a circular import, refused.
    Circular,
    /// The module was compiled before: its handle.
    Cached(u64),
    /// A `nano:` built-in module, compiled from its built-in source.
    Builtin,
    /// A module to read from the VFS (or disk) and compile.
    Load,
}

/// Loads ES modules for an isolate: resolves import specifiers against its
/// VFS, tracks the modules being loaded (to refuse circular imports), and
/// caches compiled modules by path. A compiled module is held by the engine
/// side; the cache keeps the handle by which it is found again.
pub struct ModuleLoader {
    vfs: IsolateVfs,
    module_cache: Vec<(String, u64)>,
    loading_stack: Vec<String>,
}

impl ModuleLoader {
    #[verifier::type_invariant]
    spec fn inv(self) -> bool {
        cache_keys_distinct(self.module_cache@)
    }

    /// The VFS that modules are read from.
    pub closed spec fn spec_vfs(&self) -> IsolateVfs {
        self.vfs
    }

    /// The paths being loaded, innermost last.
    pub closed spec fn loading(&self) -> Seq<Seq<char>> {
        self.loading_stack@.map_values(|s: String| s@)
    }

    /// The cached modules: each path with its handle.
    pub closed spec fn cached(&self) -> Map<Seq<char>, u64> {
        cache_map(self.module_cache@)
    }

    /// A loader over `vfs`, loading nothing and with an empty cache.
    pub fn new(vfs: IsolateVfs) -> (r: Self)
        ensures
            r.spec_vfs() == vfs,
            r.loading() == Seq::<Seq<char>>::empty(),
            r.cached() == Map::<Seq<char>, u64>::empty(),
    {
        let r = ModuleLoader { vfs, module_cache: Vec::new(), loading_stack: Vec::new() };
        assert(r.loading() =~= Seq::<Seq<char>>::empty());
        r
    }

    /// The module cache: each path once, with its handle.
    pub fn module_cache(&self) -> (r: &Vec<(String, u64)>)
        ensures
            cache_map(r@) == self.cached(),
            cache_keys_distinct(r@),
    {
        proof {
            use_type_invariant(self);
        }
        &self.module_cache
    }

    /// The paths being loaded, innermost last.
    pub fn loading_stack(&self) -> (r: &Vec<String>)
        ensures
            r@.map_values(|s: String| s@) == self.loading(),
    {
        &self.loading_stack
    }

    /// Whether `path` names a file of the VFS; an invalid path names none.
    fn vfs_has(&self, path: &str) -> (r: bool)
        ensures
            r == self.spec_vfs().has_file(path@),
    {
        match self.vfs.file_exists(path) {
            Ok(b) => b,
            Err(_) => false,
        }
    }

    /// The module source at `path` in the VFS, read as UTF-8 with invalid
    /// sequences replaced; an error where the VFS has no such file (the
    /// caller then looks on disk).
    pub fn load_module_from_vfs(&self, path: &str) -> (r: Result<String, VfsError>)
        ensures
            self.spec_vfs().has_file(path@) ==> r is Ok && r->Ok_0@ == lossy_text(
                self.spec_vfs().file_content(path@),
            ),
            !self.spec_vfs().has_file(path@) ==> r is Err,
    {
        let content = self.vfs.read(path)?;
        Ok(text_from_utf8_lossy(content.as_slice()))
    }

    /// Resolve an import specifier from the module at `base_path` (see
    /// `resolution`). `on_disk` says whether `node_modules/<specifier>/index.js`
    /// exists on disk; it is consulted only for a bare specifier that the VFS
    /// lacks.
    pub fn resolve_import_path(&self, base_path: &str, specifier: &str, on_disk: bool) -> (r: Result<
        String,
        String,
    >)
        ensures
            match resolution(self.spec_vfs(), base_path@, specifier@, on_disk) {
                Ok(p) => r is Ok && r->Ok_0@ == p,
                Err(m) => r is Err && r->Err_0@ == m,
            },
    {
        let sv = chars_of(specifier);
        let nano = chars_of("nano:");
        if occurs(&sv, &nano, 0) {
            return Ok(specifier.to_owned());
        }
        if sv.len() > 0 && sv[0] == '/' {
            return Ok(specifier.to_owned());
        }
        if !(sv.len() > 0 && sv[0] == '.') {
            let mut nm = String::new();
            push_str(&mut nm, "/node_modules/");
            push_str(&mut nm, specifier);
            push_str(&mut nm, "/index.js");
            if self.vfs_has(nm.as_str()) || on_disk {
                return Ok(nm);
            }
            let mut msg = String::new();
            push_str(&mut msg, "Cannot resolve bare specifier '");
            push_str(&mut msg, specifier);
            push_str(&mut msg, "': not found in VFS /node_modules/ or disk node_modules/");
            return Err(msg);
        }
        let bv = chars_of(base_path);
        let dir: Vec<char> = match rfind_slash(&bv) {
            Some(i) => {
                let mut d: Vec<char> = Vec::new();
                let mut k: usize = 0;
                while k < i
                    invariant
                        k <= i,
                        i < bv@.len(),
                        d@ == bv@.take(k as int),
                    decreases i - k,
                {
                    proof {
                        assert(bv@.take(k + 1) =~= bv@.take(k as int).push(bv@[k as int]));
                    }
                    d.push(bv[k]);
                    k = k + 1;
                }
                d
            },
            None => {
                let mut d: Vec<char> = Vec::new();
                d.push('.');
                assert(d@ =~= seq!['.']);
                d
            },
        };
        assert(dir@ == base_dir(base_path@));
        let dparts = split_on(&dir, '/');
        let mut dirs: Vec<Vec<char>> = Vec::new();
        let mut i: usize = 0;
        while i < dparts.len()
            invariant
                i <= dparts@.len(),
                part_views(dirs@) == kept_parts(part_views(dparts@).take(i as int)),
            decreases dparts@.len() - i,
        {
            proof {
                assert(part_views(dparts@).take(i + 1).drop_last() =~= part_views(dparts@).take(
                    i as int,
                ));
            }
            if !is_skipped(&dparts[i]) {
                let ghost before = part_views(dirs@);
                dirs.push(copy_chars(&dparts[i]));
                proof {
                    assert(part_views(dirs@) =~= before.push(dparts@[i as int]@));
                }
            }
            i = i + 1;
        }
        proof {
            assert(part_views(dparts@).take(dparts@.len() as int) =~= part_views(dparts@));
        }
        let ghost start = part_views(dirs@);
        let sparts = split_on(&sv, '/');
        let mut j: usize = 0;
        proof {
            assert(part_views(sparts@).take(0) =~= Seq::<Seq<char>>::empty());
        }
        while j < sparts.len()
            invariant
                j <= sparts@.len(),
                walk_parts(start, part_views(sparts@).take(j as int)) == Some(part_views(dirs@)),
                part_views(sparts@) == split_char(specifier@, '/'),
                start == kept_parts(split_char(base_dir(base_path@), '/')),
                !starts_with(specifier@, "nano:"@),
                specifier@.len() > 0 && specifier@[0] == '.',
            decreases sparts@.len() - j,
        {
            proof {
                assert(part_views(sparts@).take(j + 1).drop_last() =~= part_views(sparts@).take(
                    j as int,
                ));
            }
            let ghost before = part_views(dirs@);
            if is_skipped(&sparts[j]) {
            } else if is_dot_dot(&sparts[j]) {
                if dirs.len() == 0 {
                    proof {
                        lemma_walk_none(start, part_views(sparts@), j + 1);
                        assert(relative_target(base_path@, specifier@) is None);
                    }
                    let mut msg = String::new();
                    push_str(&mut msg, "Path traversal out of bounds: ");
                    push_str(&mut msg, specifier);
                    push_str(&mut msg, " from ");
                    push_str(&mut msg, base_path);
                    assert(msg@ =~= "Path traversal out of bounds: "@ + specifier@ + " from "@
                        + base_path@);
                    return Err(msg);
                }
                dirs.pop();
                proof {
                    assert(part_views(dirs@) =~= before.drop_last());
                }
            } else {
                dirs.push(copy_chars(&sparts[j]));
                proof {
                    assert(part_views(dirs@) =~= before.push(sparts@[j as int]@));
                }
            }
            j = j + 1;
        }
        proof {
            assert(part_views(sparts@).take(sparts@.len() as int) =~= part_views(sparts@));
        }
        let mut res: Vec<char> = Vec::new();
        if dirs.len() == 0 {
            res.push('/');
            assert(res@ =~= seq!['/']);
        } else {
            let mut k: usize = 0;
            while k < dirs.len()
                invariant
                    k <= dirs@.len(),
                    res@ == slashed(part_views(dirs@).take(k as int)),
                decreases dirs@.len() - k,
            {
                proof {
                    assert(part_views(dirs@).take(k + 1).drop_last() =~= part_views(dirs@).take(
                        k as int,
                    ));
                }
                let ghost before = res@;
                res.push('/');
                push_all_vec(&mut res, &dirs[k]);
                proof {
                    assert(res@ =~= before + seq!['/'] + dirs@[k as int]@);
                }
                k = k + 1;
            }
            proof {
                assert(part_views(dirs@).take(dirs@.len() as int) =~= part_views(dirs@));
            }
        }
        let resolved = string_of(&res);
        if !has_char(&res, '.') {
            let mut with_js = String::new();
            push_str(&mut with_js, resolved.as_str());
            push_str(&mut with_js, ".js");
            if self.vfs_has(with_js.as_str()) {
                return Ok(with_js);
            }
            let mut with_mjs = String::new();
            push_str(&mut with_mjs, resolved.as_str());
            push_str(&mut with_mjs, ".mjs");
            if self.vfs_has(with_mjs.as_str()) {
                return Ok(with_mjs);
            }
        }
        Ok(resolved)
    }

    /// Whether `path` is being loaded (a circular import).
    pub fn is_circular_import(&self, path: &str) -> (r: bool)
        ensures
            r == self.loading().contains(path@),
    {
        let mut i: usize = 0;
        while i < self.loading_stack.len()
            invariant
                i <= self.loading_stack@.len(),
                forall|j: int| 0 <= j < i ==> self.loading_stack@[j]@ != path@,
            decreases self.loading_stack@.len() - i,
        {
            if crate::text::str_eq(self.loading_stack[i].as_str(), path) {
                assert(self.loading()[i as int] == path@);
                return true;
            }
            i = i + 1;
        }
        assert forall|j: int| 0 <= j < self.loading().len() implies self.loading()[j] != path@ by {
            assert(self.loading()[j] == self.loading_stack@[j]@);
        }
        false
    }

    /// Mark `path` as being loaded (innermost).
    pub fn push_loading(&mut self, path: &str)
        ensures
            final(self).loading() == old(self).loading().push(path@),
            final(self).cached() == old(self).cached(),
            final(self).spec_vfs() == old(self).spec_vfs(),
    {
        proof {
            use_type_invariant(&*self);
        }
        let mut stack: Vec<String> = Vec::new();
        std::mem::swap(&mut stack, &mut self.loading_stack);
        stack.push(path.to_owned());
        self.loading_stack = stack;
        assert(self.loading() =~= old(self).loading().push(path@));
    }

    /// Mark the innermost module as loaded (nothing where none is loading).
    pub fn pop_loading(&mut self)
        ensures
            final(self).loading() == if old(self).loading().len() > 0 {
                old(self).loading().drop_last()
            } else {
                old(self).loading()
            },
            final(self).cached() == old(self).cached(),
            final(self).spec_vfs() == old(self).spec_vfs(),
    {
        proof {
            use_type_invariant(&*self);
        }
        let mut stack: Vec<String> = Vec::new();
        std::mem::swap(&mut stack, &mut self.loading_stack);
        stack.pop();
        self.loading_stack = stack;
        assert(self.loading() =~= if old(self).loading().len() > 0 {
            old(self).loading().drop_last()
        } else {
            old(self).loading()
        });
    }

    fn find_cached(&self, path: &str) -> (r: Option<usize>)
        ensures
            match r {
                Some(i) => i < self.module_cache@.len() && self.module_cache@[i as int].0@ == path@,
                None => !self.cached().contains_key(path@),
            },
    {
        let mut i: usize = 0;
        while i < self.module_cache.len()
            invariant
                i <= self.module_cache@.len(),
                forall|j: int| 0 <= j < i ==> #[trigger] self.module_cache@[j].0@ != path@,
            decreases self.module_cache@.len() - i,
        {
            if crate::text::str_eq(self.module_cache[i].0.as_str(), path) {
                return Some(i);
            }
            i = i + 1;
        }
        proof {
            lemma_cache_absent(self.module_cache@, path@);
        }
        None
    }

    /// The handle of the module cached at `path`, if any.
    pub fn get_cached(&self, path: &str) -> (r: Option<u64>)
        ensures
            r == if self.cached().contains_key(path@) {
                Some(self.cached()[path@])
            } else {
                None::<u64>
            },
    {
        proof {
            use_type_invariant(self);
        }
        match self.find_cached(path) {
            Some(i) => {
                proof {
                    lemma_cache_lookup(self.module_cache@, i as int);
                }
                Some(self.module_cache[i].1)
            },
            None => None,
        }
    }

    /// Cache the module compiled for `path` under its handle, replacing any.
    pub fn cache_module(&mut self, path: &str, handle: u64)
        ensures
            final(self).cached() == old(self).cached().insert(path@, handle),
            final(self).loading() == old(self).loading(),
            final(self).spec_vfs() == old(self).spec_vfs(),
    {
        proof {
            use_type_invariant(&*self);
        }
        let found = self.find_cached(path);
        let mut cache: Vec<(String, u64)> = Vec::new();
        std::mem::swap(&mut cache, &mut self.module_cache);
        let entry = (path.to_owned(), handle);
        match found {
            Some(i) => {
                proof {
                    lemma_cache_update(cache@, i as int, entry);
                    assert forall|a: int, b: int|
                        0 <= a < cache@.len() && 0 <= b < cache@.len() && a != b implies #[trigger] cache@.update(
                        i as int,
                        entry,
                    )[a].0@ != #[trigger] cache@.update(i as int, entry)[b].0@ by {
                        assert(cache@[a].0@ != cache@[b].0@);
                    }
                }
                cache.set(i, entry);
            },
            None => {
                proof {
                    assert(forall|j: int| 0 <= j < cache@.len() ==> #[trigger] cache@[j].0@ != path@) by {
                        assert forall|j: int| 0 <= j < cache@.len() implies #[trigger] cache@[j].0@ != path@ by {
                            if cache@[j].0@ == path@ {
                                lemma_cache_lookup(cache@, j);
                            }
                        }
                    }
                    assert(cache@.push(entry).drop_last() =~= cache@);
                }
                cache.push(entry);
            },
        }
        self.module_cache = cache;
    }

    /// What the resolve callback does first for a resolved path: refuse a
    /// circular import, else reuse a cached module, else compile a `nano:`
    /// built-in, else load the module's source.
    pub fn begin_import(&self, resolved: &str) -> (r: ImportStart)
        ensures
            r == if self.loading().contains(resolved@) {
                ImportStart::Circular
            } else if self.cached().contains_key(resolved@) {
                ImportStart::Cached(self.cached()[resolved@])
            } else if starts_with(resolved@, "nano:"@) {
                ImportStart::Builtin
            } else {
                ImportStart::Load
            },
    {
        if self.is_circular_import(resolved) {
            return ImportStart::Circular;
        }
        if let Some(h) = self.get_cached(resolved) {
            return ImportStart::Cached(h);
        }
        let rv = chars_of(resolved);
        let nano = chars_of("nano:");
        if occurs(&rv, &nano, 0) {
            ImportStart::Builtin
        } else {
            ImportStart::Load
        }
    }

    /// What the resolve callback does once the module at `path` (on the
    /// loading stack) has been compiled or has failed: it is no longer
    /// loading, and a compiled module is cached under its handle.
    pub fn finish_import(&mut self, path: &str, compiled: Option<u64>)
        ensures
            final(self).loading() == if old(self).loading().len() > 0 {
                old(self).loading().drop_last()
            } else {
                old(self).loading()
            },
            final(self).cached() == match compiled {
                Some(h) => old(self).cached().insert(path@, h),
                None => old(self).cached(),
            },
            final(self).spec_vfs() == old(self).spec_vfs(),
    {
        if let Some(h) = compiled {
            self.cache_module(path, h);
        }
        self.pop_loading();
    }
}

} // verus!

verus! {

/// Whether a text holds no `sep`.
pub open spec fn free_of(s: Seq<char>, sep: char) -> bool {
    forall|j: int| 0 <= j < s.len() ==> #[trigger] s[j] != sep
}

/// Whether a list of path parts holds a `..` part.
pub open spec fn has_dot_dot(parts: Seq<Seq<char>>) -> bool {
    parts.contains(seq!['.', '.'])
}

/// Whether every part is free of `/` and is not `..`.
pub open spec fn plain_parts(parts: Seq<Seq<char>>) -> bool {
    forall|i: int| 0 <= i < parts.len() ==> free_of(#[trigger] parts[i], '/') && parts[i] != seq!['.', '.']
}

proof fn lemma_split_free(b: Seq<char>, sep: char)
    requires
        free_of(b, sep),
    ensures
        split_char(b, sep) == seq![b],
    decreases b.len(),
{
    if b.len() == 0 {
        assert(b =~= Seq::<char>::empty());
    } else {
        assert(b[b.len() - 1] != sep);
        lemma_split_free(b.drop_last(), sep);
        assert(b.drop_last().push(b.last()) =~= b);
        assert(split_char(b, sep) =~= seq![b]);
    }
}

proof fn lemma_split_append_free(a: Seq<char>, b: Seq<char>, sep: char)
    requires
        free_of(b, sep),
    ensures
        split_char(a + b, sep).len() == split_char(a, sep).len(),
        split_char(a + b, sep) == split_char(a, sep).update(
            split_char(a, sep).len() - 1,
            split_char(a, sep).last() + b,
        ),
    decreases b.len(),
{
    lemma_split_char_nonempty(a, sep);
    if b.len() == 0 {
        assert(a + b =~= a);
        assert(split_char(a, sep).last() + b =~= split_char(a, sep).last());
        assert(split_char(a, sep).update(split_char(a, sep).len() - 1, split_char(a, sep).last())
            =~= split_char(a, sep));
    } else {
        let c = b.last();
        assert(b[b.len() - 1] == c && c != sep);
        lemma_split_append_free(a, b.drop_last(), sep);
        let s = a + b;
        assert(s.drop_last() =~= a + b.drop_last());
        assert(s.last() == c);
        let t = split_char(a, sep);
        let u = split_char(a + b.drop_last(), sep);
        assert(u.last() == t.last() + b.drop_last());
        assert((t.last() + b.drop_last()).push(c) =~= t.last() + b);
        assert(split_char(s, sep) =~= t.update(t.len() - 1, t.last() + b));
    }
}

proof fn lemma_split_after_sep(a: Seq<char>, b: Seq<char>, sep: char)
    requires
        free_of(b, sep),
    ensures
        split_char(a + seq![sep] + b, sep) == split_char(a, sep).push(b),
{
    let s = a + seq![sep];
    assert(s.drop_last() =~= a);
    assert(s.last() == sep);
    lemma_split_append_free(s, b, sep);
    assert(split_char(s, sep) == split_char(a, sep).push(Seq::<char>::empty()));
    assert(Seq::<char>::empty() + b =~= b);
    assert(split_char(a, sep).push(Seq::<char>::empty()).update(split_char(a, sep).len() as int, b)
        =~= split_char(a, sep).push(b));
}

proof fn lemma_split_pieces_free(s: Seq<char>, sep: char)
    ensures
        forall|i: int| 0 <= i < split_char(s, sep).len() ==> free_of(#[trigger] split_char(s, sep)[i], sep),
    decreases s.len(),
{
    if s.len() > 0 {
        let t = split_char(s.drop_last(), sep);
        lemma_split_pieces_free(s.drop_last(), sep);
        lemma_split_char_nonempty(s.drop_last(), sep);
        if s.last() != sep {
            assert(free_of(t[t.len() - 1], sep));
            assert(free_of(t.last().push(s.last()), sep));
        } else {
            assert(free_of(Seq::<char>::empty(), sep));
        }
    }
}

proof fn lemma_split_slashed(cs: Seq<Seq<char>>)
    requires
        plain_parts(cs),
    ensures
        split_char(slashed(cs), '/') == seq![Seq::<char>::empty()] + cs,
    decreases cs.len(),
{
    if cs.len() == 0 {
        assert(split_char(Seq::<char>::empty(), '/') =~= seq![Seq::<char>::empty()] + cs);
    } else {
        let d = cs.drop_last();
        assert(plain_parts(d)) by {
            assert forall|i: int| 0 <= i < d.len() implies free_of(#[trigger] d[i], '/') && d[i] != seq!['.', '.'] by {
                assert(d[i] == cs[i]);
            }
        }
        lemma_split_slashed(d);
        assert(free_of(cs[cs.len() - 1], '/'));
        lemma_split_after_sep(slashed(d), cs.last(), '/');
        assert((seq![Seq::<char>::empty()] + d).push(cs.last()) =~= seq![Seq::<char>::empty()] + cs);
    }
}

proof fn lemma_kept_plain(parts: Seq<Seq<char>>)
    requires
        forall|i: int| 0 <= i < parts.len() ==> free_of(#[trigger] parts[i], '/'),
        !has_dot_dot(parts),
    ensures
        plain_parts(kept_parts(parts)),
    decreases parts.len(),
{
    if parts.len() > 0 {
        let d = parts.drop_last();
        assert(!has_dot_dot(d)) by {
            if d.contains(seq!['.', '.']) {
                let k = choose|k: int| 0 <= k < d.len() && d[k] == seq!['.', '.'];
                assert(parts[k] == seq!['.', '.']);
            }
        }
        assert forall|i: int| 0 <= i < d.len() implies free_of(#[trigger] d[i], '/') by {
            assert(d[i] == parts[i]);
        }
        lemma_kept_plain(d);
        assert(free_of(parts[parts.len() - 1], '/'));
        assert(parts.last() != seq!['.', '.']) by {
            if parts.last() == seq!['.', '.'] {
                assert(parts.contains(parts[parts.len() - 1]));
            }
        }
    }
}

proof fn lemma_walk_plain(dirs: Seq<Seq<char>>, parts: Seq<Seq<char>>)
    requires
        plain_parts(dirs),
        forall|i: int| 0 <= i < parts.len() ==> free_of(#[trigger] parts[i], '/'),
    ensures
        walk_parts(dirs, parts) matches Some(cs) ==> plain_parts(cs),
    decreases parts.len(),
{
    if parts.len() > 0 {
        let d = parts.drop_last();
        assert forall|i: int| 0 <= i < d.len() implies free_of(#[trigger] d[i], '/') by {
            assert(d[i] == parts[i]);
        }
        lemma_walk_plain(dirs, d);
        assert(free_of(parts[parts.len() - 1], '/'));
        match walk_parts(dirs, d) {
            Some(s) => {
                let c = parts.last();
                if !skipped_part(c) && c == seq!['.', '.'] && s.len() > 0 {
                    let t = s.drop_last();
                    assert forall|i: int| 0 <= i < t.len() implies free_of(#[trigger] t[i], '/') && t[i]
                        != seq!['.', '.'] by {
                        assert(t[i] == s[i]);
                    }
                } else if !skipped_part(c) && c != seq!['.', '.'] {
                    let t = s.push(c);
                    assert forall|i: int| 0 <= i < t.len() implies free_of(#[trigger] t[i], '/') && t[i]
                        != seq!['.', '.'] by {
                        if i < s.len() {
                            assert(t[i] == s[i]);
                        }
                    }
                }
            },
            None => {},
        }
    }
}

/// The path that resolution takes a relative specifier to, with `.js` or
/// `.mjs` appended or not, is absolute and has no `..` part.
proof fn lemma_rooted_ext_plain(cs: Seq<Seq<char>>, ext: Seq<char>)
    requires
        plain_parts(cs),
        free_of(ext, '/'),
        ext.len() == 0 || ext.len() >= 3,
    ensures
        (rooted(cs) + ext).len() > 0,
        (rooted(cs) + ext)[0] == '/',
        !has_dot_dot(split_char(rooted(cs) + ext, '/')),
{
    let p = rooted(cs);
    let parts = if cs.len() == 0 {
        lemma_split_after_sep(Seq::<char>::empty(), Seq::<char>::empty(), '/');
        assert(Seq::<char>::empty() + seq!['/'] + Seq::<char>::empty() =~= seq!['/']);
        seq![Seq::<char>::empty(), Seq::<char>::empty()]
    } else {
        lemma_split_slashed(cs);
        seq![Seq::<char>::empty()] + cs
    };
    assert(split_char(p, '/') =~= parts);
    lemma_split_append_free(p, ext, '/');
    let q = split_char(p + ext, '/');
    assert(q == parts.update(parts.len() - 1, parts.last() + ext));
    assert(p.len() > 0 && p[0] == '/') by {
        if cs.len() > 0 {
            lemma_slashed_starts(cs);
        }
    }
    assert((p + ext)[0] == p[0]);
    assert(!q.contains(seq!['.', '.'])) by {
        if q.contains(seq!['.', '.']) {
            let k = choose|k: int| 0 <= k < q.len() && q[k] == seq!['.', '.'];
            if k == q.len() - 1 {
                let l = parts.last();
                assert(q[k] == l + ext);
                if ext.len() == 0 {
                    assert(l + ext =~= l);
                    if cs.len() > 0 {
                        assert(l == cs[cs.len() - 1]);
                    }
                } else {
                    assert((l + ext).len() >= 3);
                }
            } else if k == 0 {
                assert(q[0] == parts[0]);
            } else {
                assert(q[k] == parts[k]);
                assert(parts[k] == cs[k - 1]);
            }
        }
    }
}

proof fn lemma_slashed_starts(cs: Seq<Seq<char>>)
    requires
        cs.len() > 0,
    ensures
        slashed(cs).len() > 0,
        slashed(cs)[0] == '/',
    decreases cs.len(),
{
    if cs.len() > 1 {
        lemma_slashed_starts(cs.drop_last());
    } else {
        assert(slashed(cs.drop_last()) =~= Seq::<char>::empty());
    }
}

/// Import resolution refuses to climb above the root: a relative specifier
/// resolved from a base whose directory has no `..` part gives an absolute
/// path none of whose `/`-separated parts is `..`.
pub proof fn law_relative_import_stays_in_root(vfs: IsolateVfs, base: Seq<char>, specifier: Seq<char>, on_disk: bool)
    requires
        specifier.len() > 0 && specifier[0] == '.',
        !has_dot_dot(split_char(base_dir(base), '/')),
    ensures
        resolution(vfs, base, specifier, on_disk) matches Ok(p) ==> p.len() > 0 && p[0] == '/'
            && !has_dot_dot(split_char(p, '/')),
{
    reveal_strlit("nano:");
    reveal_strlit(".js");
    reveal_strlit(".mjs");
    assert(!starts_with(specifier, "nano:"@)) by {
        if starts_with(specifier, "nano:"@) {
            assert(specifier.subrange(0, 5)[0] == specifier[0]);
        }
    }
    let bparts = split_char(base_dir(base), '/');
    lemma_split_pieces_free(base_dir(base), '/');
    lemma_kept_plain(bparts);
    let sparts = split_char(specifier, '/');
    lemma_split_pieces_free(specifier, '/');
    lemma_walk_plain(kept_parts(bparts), sparts);
    match walk_parts(kept_parts(bparts), sparts) {
        Some(cs) => {
            let p = rooted(cs);
            assert(p + Seq::<char>::empty() =~= p);
            lemma_rooted_ext_plain(cs, Seq::<char>::empty());
            lemma_rooted_ext_plain(cs, ".js"@);
            lemma_rooted_ext_plain(cs, ".mjs"@);
        },
        None => {},
    }
}

} // verus!
