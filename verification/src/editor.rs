//! Decision logic of the web-view editor: which parameter changes are sent to
//! the page, how parameters are found by id, how messages are handed to the
//! page's script, and which embedded asset answers a request.
use vstd::prelude::*;

verus! {

/// `s` with every element after its first occurrence left out, the rest in
/// their original order.
pub open spec fn unique_in_order(s: Seq<usize>) -> Seq<usize>
    decreases s.len(),
{
    if s.len() == 0 {
        Seq::empty()
    } else {
        let prefix = unique_in_order(s.drop_last());
        if prefix.contains(s.last()) {
            prefix
        } else {
            prefix.push(s.last())
        }
    }
}

fn vec_contains(v: &Vec<usize>, x: usize) -> (r: bool)
    ensures
        r == v@.contains(x),
{
    let mut i: usize = 0;
    while i < v.len()
        invariant
            i <= v@.len(),
            forall|j: int| 0 <= j < i ==> v@[j] != x,
        decreases v.len() - i,
    {
        if v[i] == x {
            return true;
        }
        i = i + 1;
    }
    false
}

/// The indices of the parameters that changed since the editor last looked,
/// each once, in the order of their first change: the editor sends one update
/// per parameter and frame.
pub fn unique_param_indices(changed: &Vec<usize>) -> (r: Vec<usize>)
    ensures
        r@ == unique_in_order(changed@),
{
    let mut r: Vec<usize> = Vec::new();
    let mut i: usize = 0;
    while i < changed.len()
        invariant
            i <= changed@.len(),
            r@ == unique_in_order(changed@.take(i as int)),
        decreases changed.len() - i,
    {
        proof {
            assert(changed@.take(i + 1).drop_last() =~= changed@.take(i as int));
        }
        let x = changed[i];
        if !vec_contains(&r, x) {
            r.push(x);
        }
        i = i + 1;
    }
    proof {
        assert(changed@.take(changed@.len() as int) =~= changed@);
    }
    r
}

/// No parameter is reported twice in a frame, none that changed is left out,
/// and none that did not change is made up.
pub proof fn lemma_unique_in_order(s: Seq<usize>)
    ensures
        unique_in_order(s).no_duplicates(),
        forall|x: usize| unique_in_order(s).contains(x) <==> s.contains(x),
    decreases s.len(),
{
    if s.len() > 0 {
        let prefix = unique_in_order(s.drop_last());
        lemma_unique_in_order(s.drop_last());
        assert forall|x: usize| unique_in_order(s).contains(x) <==> s.contains(x) by {
            if s.contains(x) && !s.drop_last().contains(x) {
                let k = choose|k: int| 0 <= k < s.len() && s[k] == x;
                if k < s.len() - 1 {
                    assert(s.drop_last()[k] == x);
                }
            }
            if s.drop_last().contains(x) {
                let k = choose|k: int| 0 <= k < s.drop_last().len() && s.drop_last()[k] == x;
                assert(s[k] == x);
            }
            if !prefix.contains(s.last()) && x == s.last() {
                assert(prefix.push(s.last())[prefix.len() as int] == x);
            }
            if unique_in_order(s).contains(x) && !prefix.contains(x) {
                assert(x == s.last());
                assert(s[s.len() - 1] == x);
            }
            if prefix.contains(x) && !prefix.contains(s.last()) {
                let k = choose|k: int| 0 <= k < prefix.len() && prefix[k] == x;
                assert(prefix.push(s.last())[k] == x);
            }
        }
    }
}

/// The parameters to report to the page after a frame in which the page
/// itself set the parameters `from_gui`: those that changed, each once in the
/// order of their first change, except the ones the page set, which it
/// already knows better than the value that changed earlier.
pub open spec fn updates_to_send(changed: Seq<usize>, from_gui: Seq<usize>) -> Seq<usize> {
    unique_in_order(changed).filter(not_in(from_gui))
}

/// Whether a parameter index is absent from `s`.
pub open spec fn not_in(s: Seq<usize>) -> spec_fn(usize) -> bool {
    |x: usize| !s.contains(x)
}

/// The indices of the parameters to report to the page: see [`updates_to_send`].
pub fn param_updates_to_send(changed: &Vec<usize>, from_gui: &Vec<usize>) -> (r: Vec<usize>)
    ensures
        r@ == updates_to_send(changed@, from_gui@),
{
    let unique = unique_param_indices(changed);
    let ghost pred = not_in(from_gui@);
    let mut r: Vec<usize> = Vec::new();
    let mut i: usize = 0;
    while i < unique.len()
        invariant
            i <= unique@.len(),
            pred == not_in(from_gui@),
            r@ == unique@.take(i as int).filter(pred),
        decreases unique.len() - i,
    {
        proof {
            reveal_with_fuel(Seq::<_>::filter, 1);
            assert(unique@.take(i + 1).drop_last() =~= unique@.take(i as int));
        }
        let x = unique[i];
        let seen = vec_contains(from_gui, x);
        proof {
            assert(unique@.take(i + 1).last() == x);
            assert(pred(x) == !seen);
        }
        if !seen {
            r.push(x);
        }
        i = i + 1;
    }
    proof {
        assert(unique@.take(unique@.len() as int) =~= unique@);
    }
    r
}

/// What is reported holds no parameter twice, none that the page set in the
/// same frame, and only parameters that changed.
pub proof fn lemma_updates_to_send(changed: Seq<usize>, from_gui: Seq<usize>)
    ensures
        updates_to_send(changed, from_gui).no_duplicates(),
        forall|x: usize|
            updates_to_send(changed, from_gui).contains(x) <==> (changed.contains(x) && !from_gui.contains(
                x,
            )),
{
    let u = unique_in_order(changed);
    let pred = not_in(from_gui);
    lemma_unique_in_order(changed);
    assert forall|x: usize| updates_to_send(changed, from_gui).contains(x) <==> (changed.contains(x)
        && !from_gui.contains(x)) by {
        if u.contains(x) && pred(x) {
            let k = choose|k: int| 0 <= k < u.len() && u[k] == x;
            u.lemma_filter_contains(pred, k);
        }
        if u.filter(pred).contains(x) {
            u.lemma_filter_contains_rev(pred, x);
            let k = choose|k: int| 0 <= k < u.filter(pred).len() && u.filter(pred)[k] == x;
            u.lemma_filter_pred(pred, k);
        }
    }
    lemma_filter_no_duplicates(u, pred);
}

proof fn lemma_filter_no_duplicates(s: Seq<usize>, pred: spec_fn(usize) -> bool)
    requires
        s.no_duplicates(),
    ensures
        s.filter(pred).no_duplicates(),
    decreases s.len(),
{
    reveal_with_fuel(Seq::<_>::filter, 1);
    if s.len() > 0 {
        let rest = s.drop_last();
        assert(rest.no_duplicates()) by {
            assert forall|i: int, j: int| 0 <= i < rest.len() && 0 <= j < rest.len() && i != j implies rest[i]
                != rest[j] by {
                assert(rest[i] == s[i] && rest[j] == s[j]);
            }
        }
        lemma_filter_no_duplicates(rest, pred);
        if pred(s.last()) {
            let f = rest.filter(pred);
            if f.contains(s.last()) {
                rest.lemma_filter_contains_rev(pred, s.last());
                let k = choose|k: int| 0 <= k < rest.len() && rest[k] == s.last();
                assert(s[k] == s[s.len() - 1]);
            }
            assert forall|i: int, j: int|
                0 <= i < f.push(s.last()).len() && 0 <= j < f.push(s.last()).len() && i != j implies f.push(
                s.last(),
            )[i] != f.push(s.last())[j] by {
                if i == f.len() {
                    assert(f[j] != s.last());
                } else if j == f.len() {
                    assert(f[i] != s.last());
                }
            }
        }
    }
}

/// The position of the parameter with id `id` in `ids`, the first one where
/// several share it, or `None` where none has it.
pub fn find_param_index(ids: &Vec<String>, id: &String) -> (r: Option<usize>)
    ensures
        match r {
            Some(i) => i < ids@.len() && ids@[i as int]@ == id@ && forall|j: int|
                0 <= j < i ==> ids@[j]@ != id@,
            None => forall|j: int| 0 <= j < ids@.len() ==> ids@[j]@ != id@,
        },
{
    let mut i: usize = 0;
    while i < ids.len()
        invariant
            i <= ids@.len(),
            forall|j: int| 0 <= j < i ==> ids@[j]@ != id@,
        decreases ids.len() - i,
    {
        if ids[i] == *id {
            return Some(i);
        }
        i = i + 1;
    }
    None
}

#[verifier::external_type_specification]
#[verifier::external_body]
pub struct ExJsonError(serde_json::Error);

/// The lower-case hexadecimal digit for `d` (below 16).
pub open spec fn lower_hex_digit(d: u32) -> char {
    if d < 10 {
        (('0' as u32) + d) as char
    } else {
        (('a' as u32) + d - 10) as char
    }
}

/// How `serde_json` writes the character `c` inside a JSON string: quote and
/// backslash behind a backslash; backspace, tab, line feed, form feed and
/// carriage return as `\b \t \n \f \r`; the other control characters below
/// `0x20` as `\u00XX` with lower-case hex digits; everything else unchanged.
pub open spec fn json_escaped_char(c: char) -> Seq<char> {
    if c == '"' {
        seq!['\\', '"']
    } else if c == '\\' {
        seq!['\\', '\\']
    } else if c == '\u{08}' {
        seq!['\\', 'b']
    } else if c == '\t' {
        seq!['\\', 't']
    } else if c == '\n' {
        seq!['\\', 'n']
    } else if c == '\u{0c}' {
        seq!['\\', 'f']
    } else if c == '\r' {
        seq!['\\', 'r']
    } else if (c as u32) < 0x20 {
        seq!['\\', 'u', '0', '0', lower_hex_digit((c as u32) / 16), lower_hex_digit((c as u32) % 16)]
    } else {
        seq![c]
    }
}

/// The characters of `s`, each written as inside a JSON string.
pub open spec fn json_escaped(s: Seq<char>) -> Seq<char>
    decreases s.len(),
{
    if s.len() == 0 {
        Seq::empty()
    } else {
        json_escaped(s.drop_last()) + json_escaped_char(s.last())
    }
}

/// The JSON string literal for the text `s`: its escaped characters between
/// double quotes.
pub open spec fn json_string_literal(s: Seq<char>) -> Seq<char> {
    seq!['"'] + json_escaped(s) + seq!['"']
}

/// The value of the lower-case hexadecimal digit `c`.
pub open spec fn hex_digit_value(c: char) -> int {
    if (c as u32) <= ('9' as u32) {
        (c as u32) - ('0' as u32)
    } else {
        (c as u32) - ('a' as u32) + 10
    }
}

/// The character that the two-character escape `\e` stands for in a JSON
/// string (`\"` and `\\` stand for the escaped character itself).
pub open spec fn json_short_escape_value(e: char) -> char {
    if e == 'b' {
        '\u{08}'
    } else if e == 't' {
        '\t'
    } else if e == 'n' {
        '\n'
    } else if e == 'f' {
        '\u{0c}'
    } else if e == 'r' {
        '\r'
    } else {
        e
    }
}

/// The text that the inside of a JSON string literal stands for, read from
/// the front: `\uXXXX` and the two-character escapes are replaced by the
/// character they stand for, every other character stands for itself.
pub open spec fn json_unescaped(t: Seq<char>) -> Seq<char>
    decreases t.len(),
{
    if t.len() == 0 {
        Seq::empty()
    } else if t[0] == '\\' && t.len() >= 6 && t[1] == 'u' {
        let v = hex_digit_value(t[2]) * 4096 + hex_digit_value(t[3]) * 256 + hex_digit_value(t[4]) * 16
            + hex_digit_value(t[5]);
        seq![v as char] + json_unescaped(t.subrange(6, t.len() as int))
    } else if t[0] == '\\' && t.len() >= 2 {
        seq![json_short_escape_value(t[1])] + json_unescaped(t.subrange(2, t.len() as int))
    } else {
        seq![t[0]] + json_unescaped(t.subrange(1, t.len() as int))
    }
}

proof fn lemma_hex_digit_round_trip(d: u32)
    requires
        d < 16,
    ensures
        hex_digit_value(lower_hex_digit(d)) == d,
{
}

proof fn lemma_unescape_escaped_char(c: char, rest: Seq<char>)
    ensures
        json_unescaped(json_escaped_char(c) + rest) == seq![c] + json_unescaped(rest),
{
    let t = json_escaped_char(c) + rest;
    let n = json_escaped_char(c).len();
    assert(t.subrange(n as int, t.len() as int) =~= rest);
    if (c as u32) < 0x20 && c != '\u{08}' && c != '\t' && c != '\n' && c != '\u{0c}' && c != '\r' {
        let hi = (c as u32) / 16;
        let lo = (c as u32) % 16;
        lemma_hex_digit_round_trip(hi);
        lemma_hex_digit_round_trip(lo);
        assert(t[2] == '0' && t[3] == '0');
        assert(hex_digit_value(t[4]) == hi);
        assert(hex_digit_value(t[5]) == lo);
        assert(hi * 16 + lo == c as u32);
        assert(json_unescaped(t) == seq![((c as u32) as int) as char] + json_unescaped(rest));
    }
}

proof fn lemma_escaped_front(c: char, p: Seq<char>)
    ensures
        json_escaped(seq![c] + p) == json_escaped_char(c) + json_escaped(p),
    decreases p.len(),
{
    if p.len() == 0 {
        assert(seq![c] + p =~= seq![c]);
        assert(seq![c].drop_last() =~= Seq::<char>::empty());
        assert(seq![c].last() == c);
        assert(json_escaped(Seq::<char>::empty()) =~= Seq::<char>::empty());
        assert(json_escaped(seq![c]) =~= json_escaped(seq![c].drop_last()) + json_escaped_char(c));
        assert(json_escaped(seq![c]) =~= json_escaped_char(c));
        assert(json_escaped_char(c) + json_escaped(p) =~= json_escaped_char(c));
    } else {
        lemma_escaped_front(c, p.drop_last());
        assert((seq![c] + p).drop_last() =~= seq![c] + p.drop_last());
        assert((seq![c] + p).last() == p.last());
        assert(json_escaped(seq![c] + p) =~= json_escaped_char(c) + json_escaped(p.drop_last())
            + json_escaped_char(p.last()));
    }
}

proof fn lemma_unescape_escaped(s: Seq<char>)
    ensures
        json_unescaped(json_escaped(s)) == s,
    decreases s.len(),
{
    if s.len() == 0 {
    } else {
        let rest = s.subrange(1, s.len() as int);
        assert(s =~= seq![s[0]] + rest);
        lemma_escaped_front(s[0], rest);
        lemma_unescape_escaped_char(s[0], json_escaped(rest));
        lemma_unescape_escaped(rest);
    }
}

/// The JSON string literal for a text stands for exactly that text: it is
/// enclosed in double quotes, and reading its inside back gives the text,
/// every character of it, in order.
pub proof fn lemma_json_string_literal_round_trip(s: Seq<char>)
    ensures
        ({
            let q = json_string_literal(s);
            &&& q.len() >= s.len() + 2
            &&& q[0] == '"'
            &&& q[q.len() - 1] == '"'
            &&& json_unescaped(q.subrange(1, q.len() - 1)) == s
        }),
{
    let q = json_string_literal(s);
    assert(q.subrange(1, q.len() - 1) =~= json_escaped(s));
    lemma_unescape_escaped(s);
    lemma_escaped_len(s);
}

/// Whether `c` is a lower-case hexadecimal digit.
pub open spec fn is_lower_hex_digit(c: char) -> bool {
    (('0' as u32) <= (c as u32) <= ('9' as u32)) || (('a' as u32) <= (c as u32) <= ('f' as u32))
}

/// Whether `t` can stand between the quotes of a JSON string literal: read
/// from the front, it is a run of characters that need no escape (no double
/// quote, no backslash, no control character below `0x20`), of two-character
/// escapes `\" \\ \b \t \n \f \r`, and of `\u` escapes with four hex
/// digits.
pub open spec fn json_string_inside(t: Seq<char>) -> bool
    decreases t.len(),
{
    if t.len() == 0 {
        true
    } else if t[0] == '\\' {
        if t.len() >= 6 && t[1] == 'u' {
            &&& is_lower_hex_digit(t[2])
            &&& is_lower_hex_digit(t[3])
            &&& is_lower_hex_digit(t[4])
            &&& is_lower_hex_digit(t[5])
            &&& json_string_inside(t.subrange(6, t.len() as int))
        } else {
            &&& t.len() >= 2
            &&& (t[1] == '"' || t[1] == '\\' || t[1] == 'b' || t[1] == 't' || t[1] == 'n' || t[1] == 'f'
                || t[1] == 'r')
            &&& json_string_inside(t.subrange(2, t.len() as int))
        }
    } else {
        &&& t[0] != '"'
        &&& (t[0] as u32) >= 0x20
        &&& json_string_inside(t.subrange(1, t.len() as int))
    }
}

proof fn lemma_escaped_char_inside(c: char, rest: Seq<char>)
    requires
        json_string_inside(rest),
    ensures
        json_string_inside(json_escaped_char(c) + rest),
{
    let t = json_escaped_char(c) + rest;
    let n = json_escaped_char(c).len();
    assert(t.subrange(n as int, t.len() as int) =~= rest);
}

proof fn lemma_escaped_inside(s: Seq<char>)
    ensures
        json_string_inside(json_escaped(s)),
    decreases s.len(),
{
    if s.len() == 0 {
    } else {
        let rest = s.subrange(1, s.len() as int);
        assert(s =~= seq![s[0]] + rest);
        lemma_escaped_front(s[0], rest);
        lemma_escaped_inside(rest);
        lemma_escaped_char_inside(s[0], json_escaped(rest));
    }
}

/// Whatever the text, its JSON string literal is well formed: between the
/// enclosing quotes stand only characters that need no escape and complete
/// escapes, so no quote inside ends the string early and no control
/// character stands in it unescaped.
pub proof fn lemma_json_string_literal_well_formed(s: Seq<char>)
    ensures
        ({
            let q = json_string_literal(s);
            &&& q[0] == '"'
            &&& q[q.len() - 1] == '"'
            &&& json_string_inside(q.subrange(1, q.len() - 1))
        }),
{
    let q = json_string_literal(s);
    assert(q.subrange(1, q.len() - 1) =~= json_escaped(s));
    lemma_escaped_inside(s);
}

proof fn lemma_escaped_len(s: Seq<char>)
    ensures
        json_escaped(s).len() >= s.len(),
    decreases s.len(),
{
    if s.len() > 0 {
        lemma_escaped_len(s.drop_last());
    }
}

/// Serializes the text `s` as a JSON string with `serde_json::to_string`.
/// Trusted: the result is the quoted, escaped text (`format_escaped_str` in
/// serde_json's serializer), and serializing a `str` into the in-memory
/// buffer that `to_string` uses never fails.
#[verifier::external_body]
fn json_quote(s: &str) -> (r: Result<String, serde_json::Error>)
    ensures
        r is Ok,
        r matches Ok(q) ==> q@ == json_string_literal(s@),
{
    serde_json::to_string(s)
}

/// The script that hands a message, already serialized as JSON text, to the
/// page: the page's `onPluginMessageInternal` called with that text as a
/// string argument.
pub open spec fn plugin_message_script_spec(quoted: Seq<char>) -> Seq<char> {
    "onPluginMessageInternal("@ + quoted + ");"@
}

/// The script carries the whole quoted message, whatever its length: the
/// call's opening `onPluginMessageInternal(`, then every character of the
/// quoted text, then `);`.
pub proof fn lemma_message_script_carries_whole_message(m: Seq<char>)
    ensures
        ({
            let q = json_string_literal(m);
            let r = plugin_message_script_spec(q);
            &&& r.len() == q.len() + 26
            &&& r.subrange(0, 24) == "onPluginMessageInternal("@
            &&& r.subrange(24, r.len() - 2) == q
            &&& r.subrange(r.len() - 2, r.len() as int) == ");"@
        }),
{
    reveal_strlit("onPluginMessageInternal(");
    reveal_strlit(");");
    let q = json_string_literal(m);
    let r = plugin_message_script_spec(q);
    assert(r.subrange(0, 24) =~= "onPluginMessageInternal("@);
    assert(r.subrange(24, r.len() - 2) =~= q);
    assert(r.subrange(r.len() - 2, r.len() as int) =~= ");"@);
}

/// The script that delivers `message_json` to the page.
pub fn plugin_message_script(message_json: &str) -> (r: String)
    ensures
        r@ == plugin_message_script_spec(json_string_literal(message_json@)),
{
    let quoted = json_quote(message_json).unwrap();
    let mut script = String::from_str("onPluginMessageInternal(");
    script.append(quoted.as_str());
    script.append(");");
    script
}

/// The extension that `std::path::Path::extension` finds in `file`, or `None`.
/// Path separators differ between targets (Windows also splits at `\`), so
/// this stands for the function of the target the crate is built for.
pub uninterp spec fn path_extension(file: Seq<char>) -> Option<Seq<char>>;

/// Calls `std::path::Path::extension` on `file` and copies the extension into
/// a `String`. Trusted: the result is a function of `file`.
#[verifier::external_body]
fn file_extension(file: &str) -> (r: Option<String>)
    ensures
        match r {
            Some(e) => path_extension(file@) == Some(e@),
            None => path_extension(file@) is None,
        },
{
    std::path::Path::new(file).extension().map(|e| e.to_string_lossy().into_owned())
}

/// The media type that `mime_guess` gives the extension `ext` (`text/plain`
/// where it knows none).
pub uninterp spec fn mime_type_for_extension(ext: Seq<char>) -> Seq<char>;

/// Looks the extension up with `mime_guess::from_ext(..).first_or_text_plain()`
/// and writes the media type out. Trusted: the result is a function of `ext`.
#[verifier::external_body]
fn guess_mime_type(ext: &str) -> (r: String)
    ensures
        r@ == mime_type_for_extension(ext@),
{
    mime_guess::from_ext(ext).first_or_text_plain().to_string()
}

/// The base URL under which the editor's embedded assets are served through
/// the custom protocol `protocol`: `http://<protocol>.localhost` on Windows,
/// `<protocol>://localhost` elsewhere.
pub fn asset_url_scheme(protocol: &str, windows: bool) -> (r: String)
    ensures
        windows ==> r@ == "http://"@ + protocol@ + ".localhost"@,
        !windows ==> r@ == protocol@ + "://localhost"@,
{
    if windows {
        let mut r = String::from_str("http://");
        r.append(protocol);
        r.append(".localhost");
        r
    } else {
        let mut r = String::from_str(protocol);
        r.append("://localhost");
        r
    }
}

/// The asset that answers a request for `path`: `index.html` for the root,
/// otherwise the path without its leading character.
pub open spec fn asset_file_spec(path: Seq<char>) -> Seq<char> {
    if path == "/"@ {
        "index.html"@
    } else {
        path.subrange(1, path.len() as int)
    }
}

/// A request for any path other than the root is answered with the file at
/// that path without its leading `/`: putting the `/` back in front gives the
/// requested path. The root is answered with `index.html`.
pub proof fn lemma_asset_file_drops_leading_slash(path: Seq<char>)
    requires
        path.len() > 0,
        path[0] == '/',
    ensures
        path != "/"@ ==> seq!['/'] + asset_file_spec(path) == path,
        path != "/"@ ==> asset_file_spec(path).len() + 1 == path.len(),
        path == "/"@ ==> asset_file_spec(path) == "index.html"@,
{
    if path != "/"@ {
        assert(seq!['/'] + path.subrange(1, path.len() as int) =~= path);
    }
}

/// An embedded asset to answer a request with: the file's path among the
/// assets and its media type.
#[derive(Debug)]
pub struct AssetRequest {
    pub file: String,
    pub mime_type: String,
}

/// The asset file and media type for a request of `path` (a URI path, which
/// starts with `/`), or `None` where the file name has no extension to take
/// a media type from.
pub fn asset_request(path: &str) -> (r: Option<AssetRequest>)
    requires
        path@.len() > 0,
        (path@[0] as u32) < 128,
    ensures
        match path_extension(asset_file_spec(path@)) {
            Some(ext) => r matches Some(a) && a.file@ == asset_file_spec(path@) && a.mime_type@
                == mime_type_for_extension(ext),
            None => r is None,
        },
{
    proof {
        reveal_strlit("/");
        reveal_strlit("index.html");
    }
    let len = path.unicode_len();
    let file = if len == 1 && path.get_char(0) == '/' {
        proof {
            assert(path@ =~= "/"@);
        }
        String::from_str("index.html")
    } else {
        proof {
            if path@ == "/"@ {
                assert(path@[0] == '/');
            }
        }
        String::from_str(path.substring_char(1, len))
    };
    match file_extension(file.as_str()) {
        Some(ext) => {
            let mime_type = guess_mime_type(ext.as_str());
            Some(AssetRequest { file, mime_type })
        },
        None => None,
    }
}

} // verus!
