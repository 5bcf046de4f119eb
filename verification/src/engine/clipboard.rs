//! Clipboard synchronisation: telling local changes from echoes of
//! network writes, announcing large content, cutting it into chunks and
//! putting the chunks back together on the receiving side.
use std::hash::{Hash, Hasher};
use vstd::prelude::*;
use vstd::utf8::{valid_utf8, decode_utf8, encode_utf8, encode_utf8_valid_utf8, encode_utf8_decode_utf8};
use crate::engine::{AccumulatorView, ClipboardAccumulator, accumulator_view};
use crate::hardware::{
    FulfillmentPayload, PromiseContext, PromiseView, check_and_consume_ignore_hash, ignore_consume, ignore_push,
    lemma_ignore_hash_consumed_once, promise_view, push_ignore_hash,
};
use crate::network::protocol::ClipboardPayload;
use crate::hardware::Platform;
use crate::text::{chars_of, chars_start_with, copy_string, copy_string_of_str, str_eq, string_of};

verus! {

/// The size of one clipboard chunk.
pub const CLIPBOARD_CHUNK_SIZE: usize = 65536;
/// Local content larger than this is announced instead of sent.
pub const LARGE_CLIPBOARD_BYTES: usize = 5242880;

/// The FxHash of a string, as `rustc_hash::FxHasher` computes it through
/// `Hash for str` on a target whose words are `word_bits` wide (the hasher's
/// multiplier and final rotation depend on the pointer width).
pub uninterp spec fn fx_str_hash(s: Seq<char>, word_bits: u32) -> u64;

/// The hash under which clipboard text is remembered (`FxHasher` over the
/// string's `Hash`), on this target's word size.
#[verifier::external_body]
pub fn hash_clipboard_data(data: &str) -> (r: u64)
    ensures
        r == fx_str_hash(data@, usize::BITS),
{
    let mut hasher = rustc_hash::FxHasher::default();
    data.hash(&mut hasher);
    hasher.finish()
}

/// Whether clipboard text is a list of files.
pub open spec fn is_file_list(data: Seq<char>) -> bool {
    (data.len() >= 7 && data.take(7) == "file://"@) || (data.len() > 0 && data[0] == '/')
}

pub fn clipboard_is_file_list(data: &str) -> (r: bool)
    ensures
        r == is_file_list(data@),
{
    let chars = chars_of(data);
    let prefix = chars_of("file://");
    proof {
        reveal_strlit("file://");
    }
    chars_start_with(chars.as_slice(), prefix.as_slice()) || (chars.len() > 0 && chars[0] == '/')
}

/// Files larger than this are left out of a clipboard transfer.
pub const MAX_CLIPBOARD_FILE_BYTES: u64 = 52428800;

/// Whether a file of `len` bytes goes into a clipboard transfer.
pub fn file_fits(len: u64) -> (r: bool)
    ensures
        r == (len <= MAX_CLIPBOARD_FILE_BYTES),
{
    len <= MAX_CLIPBOARD_FILE_BYTES
}

/// A relative path with `/` as its only separator.
pub open spec fn portable_path(name: Seq<char>) -> Seq<char> {
    name.map_values(|c: char| if c == '\\' { '/' } else { c })
}

/// The name a file travels under: its path relative to the copied
/// selection, with backslashes turned into `/`.
pub fn portable_name(name: &str) -> (r: String)
    ensures
        r@ == portable_path(name@),
{
    let c = chars_of(name);
    let mut v: Vec<char> = Vec::new();
    let mut i: usize = 0;
    while i < c.len()
        invariant
            i <= c@.len(),
            c@ == name@,
            v@ == portable_path(c@.take(i as int)),
        decreases c.len() - i,
    {
        let ch = if c[i] == '\\' { '/' } else { c[i] };
        v.push(ch);
        proof {
            assert(portable_path(c@.take(i as int + 1)) =~= portable_path(c@.take(i as int)).push(ch));
        }
        i = i + 1;
    }
    assert(c@.take(c@.len() as int) =~= c@);
    crate::text::string_of(v.as_slice())
}

/// The pieces of `s` between occurrences of the characters in `sep` (empty
/// pieces included; there is always at least one).
pub open spec fn pieces_by(s: Seq<char>, sep: Seq<char>) -> Seq<Seq<char>>
    decreases s.len(),
{
    if s.len() == 0 {
        seq![Seq::<char>::empty()]
    } else {
        let p = pieces_by(s.drop_last(), sep);
        if sep.contains(s.last()) {
            p.push(Seq::<char>::empty())
        } else {
            p.update(p.len() - 1, p.last().push(s.last()))
        }
    }
}

/// The characters that separate the components of a file name on
/// `platform`: `/`, and on Windows also `\`.
pub open spec fn name_separators(platform: Platform) -> Seq<char> {
    if platform == Platform::Windows {
        seq!['/', '\\']
    } else {
        seq!['/']
    }
}

/// The length of the drive prefix (`C:`) a Windows name begins with; 0 on
/// other platforms and for names without one.
pub open spec fn drive_prefix_len(platform: Platform, name: Seq<char>) -> int {
    if platform == Platform::Windows && name.len() >= 2 && (('a' <= name[0] && name[0] <= 'z') || ('A'
        <= name[0] && name[0] <= 'Z')) && name[1] == ':' {
        2
    } else {
        0
    }
}

/// A component that names something inside the folder it is in: not
/// empty, not `.` and not `..`.
pub open spec fn is_plain_component(p: Seq<char>) -> bool {
    p.len() > 0 && p != seq!['.'] && p != seq!['.', '.']
}

/// A component kept on `platform`: a plain one, and on Windows one without
/// `:` (which would make it a drive or stream name).
pub open spec fn is_kept_component(platform: Platform, p: Seq<char>) -> bool {
    is_plain_component(p) && (platform == Platform::Windows ==> !p.contains(':'))
}

/// The kept components among `ps`, in order.
pub open spec fn kept_pieces(platform: Platform, ps: Seq<Seq<char>>) -> Seq<Seq<char>>
    decreases ps.len(),
{
    if ps.len() == 0 {
        ps
    } else if is_kept_component(platform, ps.last()) {
        kept_pieces(platform, ps.drop_last()).push(ps.last())
    } else {
        kept_pieces(platform, ps.drop_last())
    }
}

/// The components of received file name `name` that are kept when it is
/// written below the temporary folder on `platform`: a Windows drive prefix
/// is dropped, and of the pieces between separators only the kept ones
/// remain. On Linux and macOS these are exactly the normal components
/// `std::path::Path::components` finds.
pub open spec fn safe_path_components(platform: Platform, name: Seq<char>) -> Seq<Seq<char>> {
    kept_pieces(platform, pieces_by(name.skip(drive_prefix_len(platform, name)), name_separators(platform)))
}

proof fn lemma_pieces_by_nonempty(s: Seq<char>, sep: Seq<char>)
    ensures
        pieces_by(s, sep).len() >= 1,
    decreases s.len(),
{
    if s.len() > 0 {
        lemma_pieces_by_nonempty(s.drop_last(), sep);
    }
}

proof fn lemma_pieces_free_of(s: Seq<char>, sep: Seq<char>)
    ensures
        forall|i: int, j: int|
            0 <= i < pieces_by(s, sep).len() && 0 <= j < pieces_by(s, sep)[i].len() ==> !sep.contains(
                #[trigger] pieces_by(s, sep)[i][j],
            ),
    decreases s.len(),
{
    if s.len() > 0 {
        lemma_pieces_free_of(s.drop_last(), sep);
        lemma_pieces_by_nonempty(s.drop_last(), sep);
        let p = pieces_by(s.drop_last(), sep);
        let q = pieces_by(s, sep);
        if !sep.contains(s.last()) {
            assert forall|i: int, j: int| 0 <= i < q.len() && 0 <= j < q[i].len() implies !sep.contains(
                #[trigger] q[i][j],
            ) by {
                if i == p.len() - 1 {
                    assert(q[i] == p.last().push(s.last()));
                    if j == p.last().len() {
                        assert(q[i][j] == s.last());
                    } else {
                        assert(q[i][j] == p[i][j]);
                    }
                } else {
                    assert(q[i] == p[i]);
                    assert(q[i][j] == p[i][j]);
                }
            }
        }
    }
}

proof fn lemma_kept_pieces_from(platform: Platform, ps: Seq<Seq<char>>)
    ensures
        forall|i: int|
            0 <= i < kept_pieces(platform, ps).len() ==> is_kept_component(platform, #[trigger] kept_pieces(platform, ps)[i])
                && ps.contains(kept_pieces(platform, ps)[i]),
    decreases ps.len(),
{
    if ps.len() > 0 {
        lemma_kept_pieces_from(platform, ps.drop_last());
        let r = kept_pieces(platform, ps.drop_last());
        assert forall|i: int| 0 <= i < kept_pieces(platform, ps).len() implies is_kept_component(
            platform,
            #[trigger] kept_pieces(platform, ps)[i],
        ) && ps.contains(kept_pieces(platform, ps)[i]) by {
            if i < r.len() {
                let k = choose|k: int| 0 <= k < ps.drop_last().len() && ps.drop_last()[k] == r[i];
                assert(ps[k] == r[i]);
            } else {
                assert(ps[ps.len() - 1] == ps.last());
            }
        }
    }
}

/// Every component kept of a received name names an entry directly inside
/// the folder it is joined to: it is not empty, not `.` or `..`, holds no
/// separator of the platform, and on Windows no `:`. So every received file
/// and folder is written inside the temporary folder.
pub proof fn lemma_received_names_stay_inside(platform: Platform, name: Seq<char>)
    ensures
        forall|i: int|
            0 <= i < safe_path_components(platform, name).len() ==> {
                let c = #[trigger] safe_path_components(platform, name)[i];
                &&& is_plain_component(c)
                &&& forall|j: int| 0 <= j < c.len() ==> !name_separators(platform).contains(c[j])
                &&& (platform == Platform::Windows ==> !c.contains(':'))
            },
{
    let sep = name_separators(platform);
    let rest = name.skip(drive_prefix_len(platform, name));
    let ps = pieces_by(rest, sep);
    lemma_pieces_free_of(rest, sep);
    lemma_kept_pieces_from(platform, ps);
    assert forall|i: int| 0 <= i < safe_path_components(platform, name).len() implies forall|j: int|
        0 <= j < (#[trigger] safe_path_components(platform, name)[i]).len() ==> !sep.contains(
            safe_path_components(platform, name)[i][j],
        ) by {
        let c = safe_path_components(platform, name)[i];
        assert(ps.contains(c));
        let k = choose|k: int| 0 <= k < ps.len() && ps[k] == c;
        assert forall|j: int| 0 <= j < c.len() implies !sep.contains(#[trigger] c[j]) by {
            assert(c[j] == ps[k][j]);
        }
    }
}

fn is_plain_chars(c: &[char]) -> (r: bool)
    ensures
        r == is_plain_component(c@),
{
    let ghost one = seq!['.'];
    let ghost two = seq!['.', '.'];
    assert(one.len() == 1 && one[0] == '.');
    assert(two.len() == 2 && two[0] == '.' && two[1] == '.');
    if c.len() == 0 {
        false
    } else if c.len() == 1 {
        if c[0] == '.' {
            assert(c@ =~= one);
            false
        } else {
            assert(c@[0] != one[0]);
            true
        }
    } else if c.len() == 2 {
        if c[0] == '.' && c[1] == '.' {
            assert(c@ =~= two);
            false
        } else {
            assert(c@[0] != two[0] || c@[1] != two[1]);
            true
        }
    } else {
        true
    }
}

fn is_kept_chars(platform: Platform, c: &[char]) -> (r: bool)
    ensures
        r == is_kept_component(platform, c@),
{
    if !is_plain_chars(c) {
        return false;
    }
    if platform != Platform::Windows {
        return true;
    }
    let mut i: usize = 0;
    while i < c.len()
        invariant
            i <= c@.len(),
            platform == Platform::Windows,
            is_plain_component(c@),
            forall|j: int| 0 <= j < i ==> c@[j] != ':',
        decreases c.len() - i,
    {
        if c[i] == ':' {
            assert(c@[i as int] == ':');
            assert(c@.contains(':'));
            return false;
        }
        i = i + 1;
    }
    true
}

fn is_separator(platform: Platform, c: char) -> (r: bool)
    ensures
        r == name_separators(platform).contains(c),
{
    let ghost sep = name_separators(platform);
    if platform == Platform::Windows {
        assert(sep.len() == 2 && sep[0] == '/' && sep[1] == '\\');
        if c == '/' {
            assert(sep[0] == c);
            true
        } else if c == '\\' {
            assert(sep[1] == c);
            true
        } else {
            false
        }
    } else {
        assert(sep.len() == 1 && sep[0] == '/');
        if c == '/' {
            assert(sep[0] == c);
            true
        } else {
            false
        }
    }
}

fn drive_prefix_length(platform: Platform, cs: &[char]) -> (r: usize)
    ensures
        r == drive_prefix_len(platform, cs@),
{
    if platform == Platform::Windows && cs.len() >= 2 && (('a' <= cs[0] && cs[0] <= 'z') || ('A' <= cs[0]
        && cs[0] <= 'Z')) && cs[1] == ':' {
        2
    } else {
        0
    }
}

/// The kept components of received file name `name` on `platform` (see
/// `safe_path_components`).
pub fn safe_components(name: &str, platform: Platform) -> (r: Vec<String>)
    ensures
        r@.map_values(|c: String| c@) == safe_path_components(platform, name@),
{
    let ghost sep = name_separators(platform);
    let all = chars_of(name);
    let start = drive_prefix_length(platform, all.as_slice());
    let cs = &all.as_slice()[start..all.len()];
    assert(cs@ =~= name@.skip(start as int));
    let mut out: Vec<String> = Vec::new();
    let mut cur: Vec<char> = Vec::new();
    let mut i: usize = 0;
    assert(cs@.take(0) =~= Seq::<char>::empty());
    while i < cs.len()
        invariant
            i <= cs@.len(),
            sep == name_separators(platform),
            pieces_by(cs@.take(i as int), sep).len() >= 1,
            cur@ == pieces_by(cs@.take(i as int), sep).last(),
            out@.map_values(|c: String| c@) == kept_pieces(platform, pieces_by(cs@.take(i as int), sep).drop_last()),
        decreases cs.len() - i,
    {
        let ghost p = pieces_by(cs@.take(i as int), sep);
        let c = cs[i];
        assert(cs@.take(i as int + 1).drop_last() =~= cs@.take(i as int));
        assert(cs@.take(i as int + 1).last() == c);
        if is_separator(platform, c) {
            if is_kept_chars(platform, cur.as_slice()) {
                out.push(string_of(cur.as_slice()));
            }
            cur = Vec::new();
            proof {
                let np = pieces_by(cs@.take(i as int + 1), sep);
                assert(np == p.push(Seq::<char>::empty()));
                assert(np.drop_last() =~= p);
                assert(p.drop_last().push(p.last()) =~= p);
                assert(out@.map_values(|c: String| c@) =~= kept_pieces(platform, np.drop_last()));
                assert(cur@ =~= np.last());
            }
        } else {
            cur.push(c);
            proof {
                let np = pieces_by(cs@.take(i as int + 1), sep);
                assert(np == p.update(p.len() - 1, p.last().push(c)));
                assert(np.drop_last() =~= p.drop_last());
                assert(cur@ =~= np.last());
            }
        }
        i = i + 1;
    }
    assert(cs@.take(cs@.len() as int) =~= cs@);
    let ghost p = pieces_by(cs@, sep);
    if is_kept_chars(platform, cur.as_slice()) {
        out.push(string_of(cur.as_slice()));
    }
    proof {
        assert(p.drop_last().push(p.last()) =~= p);
        assert(out@.map_values(|c: String| c@) =~= kept_pieces(platform, p));
    }
    out
}

/// The top-level names that received files `names` are written under on
/// `platform`: the first kept component of each name that has one, each
/// once, in the order they first appear.
pub open spec fn top_level_names_spec(platform: Platform, names: Seq<Seq<char>>) -> Seq<Seq<char>>
    decreases names.len(),
{
    if names.len() == 0 {
        Seq::empty()
    } else {
        let r = top_level_names_spec(platform, names.drop_last());
        let parts = safe_path_components(platform, names.last());
        if parts.len() > 0 && !r.contains(parts[0]) {
            r.push(parts[0])
        } else {
            r
        }
    }
}

fn contains_string(v: &Vec<String>, s: &String) -> (r: bool)
    ensures
        r == v@.map_values(|c: String| c@).contains(s@),
{
    let ghost vs = v@.map_values(|c: String| c@);
    let mut i: usize = 0;
    while i < v.len()
        invariant
            i <= v@.len(),
            vs == v@.map_values(|c: String| c@),
            forall|j: int| 0 <= j < i ==> vs[j] != s@,
        decreases v.len() - i,
    {
        if str_eq(v[i].as_str(), s.as_str()) {
            assert(vs[i as int] == s@);
            return true;
        }
        i = i + 1;
    }
    false
}

/// The top-level names received files are written under (see
/// `top_level_names_spec`).
pub fn top_level_names(names: &[String], platform: Platform) -> (r: Vec<String>)
    ensures
        r@.map_values(|c: String| c@) == top_level_names_spec(platform, names@.map_values(|c: String| c@)),
{
    let ghost ns = names@.map_values(|c: String| c@);
    let mut out: Vec<String> = Vec::new();
    let mut i: usize = 0;
    assert(ns.take(0) =~= Seq::<Seq<char>>::empty());
    while i < names.len()
        invariant
            i <= names@.len(),
            ns == names@.map_values(|c: String| c@),
            out@.map_values(|c: String| c@) == top_level_names_spec(platform, ns.take(i as int)),
        decreases names.len() - i,
    {
        assert(ns.take(i as int + 1).drop_last() =~= ns.take(i as int));
        assert(ns.take(i as int + 1).last() == names@[i as int]@);
        let parts = safe_components(names[i].as_str(), platform);
        if parts.len() > 0 {
            assert(parts@.map_values(|c: String| c@)[0] == parts@[0]@);
            if !contains_string(&out, &parts[0]) {
                let first = copy_string(&parts[0]);
                let ghost before = out@.map_values(|c: String| c@);
                out.push(first);
                assert(out@.map_values(|c: String| c@) =~= before.push(parts@[0]@));
            }
        }
        i = i + 1;
    }
    assert(ns.take(names@.len() as int) =~= ns);
    out
}

/// The lines of `s` as `str::lines` gives them: split at `\n`, a `\r` just
/// before a `\n` dropped; only the non-empty ones are kept.
pub open spec fn strip_cr(p: Seq<char>) -> Seq<char> {
    if p.len() > 0 && p.last() == '\r' {
        p.drop_last()
    } else {
        p
    }
}

/// The non-empty sequences among `ps`, in order.
pub open spec fn keep_nonempty(ps: Seq<Seq<char>>) -> Seq<Seq<char>>
    decreases ps.len(),
{
    if ps.len() == 0 {
        ps
    } else if ps.last().len() > 0 {
        keep_nonempty(ps.drop_last()).push(ps.last())
    } else {
        keep_nonempty(ps.drop_last())
    }
}

/// The non-empty lines of `s`: every piece that a `\n` ends loses one
/// trailing `\r`; the last piece is kept as it is.
pub open spec fn nonempty_lines(s: Seq<char>) -> Seq<Seq<char>> {
    let p = pieces_by(s, seq!['\n']);
    keep_nonempty(p.drop_last().map_values(|q: Seq<char>| strip_cr(q)).push(p.last()))
}

/// The paths a clipboard file list names, one per non-empty line.
pub fn clipboard_path_lines(s: &str) -> (r: Vec<String>)
    ensures
        r@.map_values(|c: String| c@) == nonempty_lines(s@),
{
    let ghost sep = seq!['\n'];
    let cs = chars_of(s);
    let mut out: Vec<String> = Vec::new();
    let mut cur: Vec<char> = Vec::new();
    let mut i: usize = 0;
    assert(cs@.take(0) =~= Seq::<char>::empty());
    while i < cs.len()
        invariant
            i <= cs@.len(),
            cs@ == s@,
            sep == seq!['\n'],
            pieces_by(cs@.take(i as int), sep).len() >= 1,
            cur@ == pieces_by(cs@.take(i as int), sep).last(),
            out@.map_values(|c: String| c@) == keep_nonempty(
                pieces_by(cs@.take(i as int), sep).drop_last().map_values(|q: Seq<char>| strip_cr(q)),
            ),
        decreases cs.len() - i,
    {
        let ghost p = pieces_by(cs@.take(i as int), sep);
        let c = cs[i];
        assert(cs@.take(i as int + 1).drop_last() =~= cs@.take(i as int));
        assert(cs@.take(i as int + 1).last() == c);
        assert(sep.len() == 1 && sep[0] == '\n');
        if c == '\n' {
            assert(sep.contains(c)) by {
                assert(sep[0] == c);
            }
            let ghost before = out@.map_values(|c: String| c@);
            let n = cur.len();
            let line_len = if n > 0 && cur[n - 1] == '\r' { n - 1 } else { n };
            let line = string_of(&cur.as_slice()[0..line_len]);
            proof {
                assert(line@ =~= strip_cr(cur@));
            }
            if line_len > 0 {
                out.push(line);
            }
            cur = Vec::new();
            proof {
                let np = pieces_by(cs@.take(i as int + 1), sep);
                assert(np == p.push(Seq::<char>::empty()));
                assert(np.drop_last() =~= p);
                let m = |q: Seq<char>| strip_cr(q);
                assert(p.map_values(m).drop_last() =~= p.drop_last().map_values(m));
                assert(p.map_values(m).last() == strip_cr(p.last()));
                assert(out@.map_values(|c: String| c@) =~= keep_nonempty(np.drop_last().map_values(m)));
                assert(cur@ =~= np.last());
            }
        } else {
            assert(!sep.contains(c));
            cur.push(c);
            proof {
                let np = pieces_by(cs@.take(i as int + 1), sep);
                assert(np == p.update(p.len() - 1, p.last().push(c)));
                assert(np.drop_last() =~= p.drop_last());
                assert(cur@ =~= np.last());
            }
        }
        i = i + 1;
    }
    assert(cs@.take(cs@.len() as int) =~= cs@);
    let ghost p = pieces_by(cs@, sep);
    let ghost q = p.drop_last().map_values(|q: Seq<char>| strip_cr(q)).push(p.last());
    assert(q.drop_last() =~= p.drop_last().map_values(|q: Seq<char>| strip_cr(q)));
    if cur.len() > 0 {
        out.push(string_of(cur.as_slice()));
    }
    proof {
        assert(out@.map_values(|c: String| c@) =~= keep_nonempty(q));
    }
    out
}

/// What to do about a change of the local clipboard.
pub enum ClipboardChange {
    /// Empty or unreadable content.
    Ignore,
    /// The content was written from the network; it is not sent back.
    Echo,
    /// Large content: announced, and sent when a peer asks for it.
    Offer { format: String, size: usize },
    /// Small content: sent at once.
    Send,
}

/// Whether clipboard text carries nothing to share.
pub open spec fn is_blank_clipboard(data: Seq<char>) -> bool {
    data.len() == 0 || data == "unknown format"@
}

/// Decides about new local clipboard content `data` of `total_size` bytes
/// (the files' sizes for a file list). A change whose hash was remembered
/// as written from the network is an echo and consumes that memory.
pub fn classify_clipboard_change(data: &str, total_size: usize, ignore_queue: &mut Vec<u64>) -> (r: ClipboardChange)
    ensures
        is_blank_clipboard(data@) ==> r is Ignore && final(ignore_queue)@ == old(ignore_queue)@,
        !is_blank_clipboard(data@) ==> {
            let h = fx_str_hash(data@, usize::BITS);
            &&& final(ignore_queue)@ == ignore_consume(old(ignore_queue)@, h)
            &&& if old(ignore_queue)@.contains(h) {
                r is Echo
            } else if total_size > LARGE_CLIPBOARD_BYTES {
                &&& r matches ClipboardChange::Offer { format, size }
                &&& size == total_size
                &&& format@ == (if is_file_list(data@) { "files"@ } else { "text"@ })
            } else {
                r is Send
            }
        },
{
    if data.is_empty() || str_eq(data, "unknown format") {
        return ClipboardChange::Ignore;
    }
    let h = hash_clipboard_data(data);
    if check_and_consume_ignore_hash(ignore_queue, h) {
        return ClipboardChange::Echo;
    }
    if total_size > LARGE_CLIPBOARD_BYTES {
        let format = if clipboard_is_file_list(data) {
            copy_string_of_str("files")
        } else {
            copy_string_of_str("text")
        };
        ClipboardChange::Offer { format, size: total_size }
    } else {
        ClipboardChange::Send
    }
}

/// The memory of written content after the clipboard was read back as
/// `written`: blank content is not remembered.
pub open spec fn remembered(queue: Seq<u64>, written: Seq<char>) -> Seq<u64> {
    if is_blank_clipboard(written) {
        queue
    } else {
        ignore_push(queue, fx_str_hash(written, usize::BITS))
    }
}

/// Remembers content this program wrote to the clipboard (as read back), so
/// that the clipboard listener recognises it as an echo.
pub fn remember_written(ignore_queue: &mut Vec<u64>, written: &str)
    ensures
        final(ignore_queue)@ == remembered(old(ignore_queue)@, written@),
{
    if !written.is_empty() && !str_eq(written, "unknown format") {
        push_ignore_hash(ignore_queue, hash_clipboard_data(written));
    }
}

/// Content written from the network and read back is recognised as an echo
/// when the listener next sees it, and only that once: the memory no longer
/// holds it afterwards.
pub proof fn lemma_written_clipboard_echoes_once(queue: Seq<u64>, written: Seq<char>)
    requires
        !is_blank_clipboard(written),
    ensures
        remembered(queue, written).contains(fx_str_hash(written, usize::BITS)),
        !ignore_consume(remembered(queue, written), fx_str_hash(written, usize::BITS)).contains(fx_str_hash(written, usize::BITS)),
{
    lemma_ignore_hash_consumed_once(queue, fx_str_hash(written, usize::BITS));
}

/// The number of chunks `n` bytes are cut into.
pub open spec fn chunk_count(n: nat) -> nat {
    if n == 0 {
        0
    } else {
        ((n - 1) as nat / CLIPBOARD_CHUNK_SIZE as nat + 1) as nat
    }
}

/// The bytes of chunk `k`.
pub open spec fn chunk_data(bytes: Seq<u8>, k: int) -> Seq<u8> {
    let end = if (k + 1) * CLIPBOARD_CHUNK_SIZE < bytes.len() {
        (k + 1) * CLIPBOARD_CHUNK_SIZE
    } else {
        bytes.len() as int
    };
    bytes.subrange(k * CLIPBOARD_CHUNK_SIZE, end)
}

/// Whether chunk `k` of `n` bytes is the last one.
pub open spec fn chunk_is_last(n: nat, k: int) -> bool {
    (k + 1) * CLIPBOARD_CHUNK_SIZE >= n
}

/// Whether a payload is chunk `k` of `bytes` for content `id`.
pub open spec fn is_chunk(p: ClipboardPayload, id: Seq<char>, bytes: Seq<u8>, k: int) -> bool {
    &&& p matches ClipboardPayload::Chunk { id: cid, chunk_index, is_last, data }
    &&& cid@ == id
    &&& chunk_index == k
    &&& is_last == chunk_is_last(bytes.len(), k)
    &&& data@ == chunk_data(bytes, k)
}

proof fn lemma_chunk_count_step(n: nat, off: nat)
    requires
        off % (CLIPBOARD_CHUNK_SIZE as nat) == 0,
        off < n,
    ensures
        (off + CLIPBOARD_CHUNK_SIZE >= n) == (off / (CLIPBOARD_CHUNK_SIZE as nat) + 1 == chunk_count(n)),
        off / (CLIPBOARD_CHUNK_SIZE as nat) < chunk_count(n),
{
    let c = CLIPBOARD_CHUNK_SIZE as nat;
    let k = off / c;
    assert(off == k * c) by (nonlinear_arith)
        requires
            off % c == 0,
            c > 0,
            k == off / c,
    ;
    let n1 = (n - 1) as nat;
    let m = n1 / c;
    assert(m * c <= n1 < (m + 1) * c) by (nonlinear_arith)
        requires
            c > 0,
            m == n1 / c,
    ;
    assert(k <= m) by (nonlinear_arith)
        requires
            k * c < n,
            m * c <= n1 < (m + 1) * c,
            n1 + 1 == n,
            c > 0,
    ;
    assert((k * c + c >= n) == (k == m)) by (nonlinear_arith)
        requires
            k <= m,
            m * c <= n1 < (m + 1) * c,
            n1 + 1 == n,
            k * c < n,
            c > 0,
    ;
}

/// The chunks that carry `bytes` for content `id`, in order: at most
/// `CLIPBOARD_CHUNK_SIZE` bytes each, numbered from 0, the last one marked.
/// Empty content has no chunks.
pub fn offer_chunks(id: &str, bytes: &[u8]) -> (r: Vec<ClipboardPayload>)
    ensures
        r@.len() == chunk_count(bytes@.len()),
        forall|k: int| 0 <= k < r@.len() ==> #[trigger] is_chunk(r@[k], id@, bytes@, k),
{
    let n = bytes.len();
    let mut r: Vec<ClipboardPayload> = Vec::new();
    let mut offset: usize = 0;
    let mut index: u64 = 0;
    while offset < n
        invariant
            n == bytes@.len(),
            offset <= n,
            offset < n ==> offset % CLIPBOARD_CHUNK_SIZE == 0 && index == offset / CLIPBOARD_CHUNK_SIZE,
            offset < n ==> r@.len() == index,
            offset < n ==> index < chunk_count(n as nat),
            offset >= n ==> r@.len() == chunk_count(n as nat),
            forall|k: int| 0 <= k < r@.len() ==> #[trigger] is_chunk(r@[k], id@, bytes@, k),
        decreases n - offset,
    {
        proof {
            lemma_chunk_count_step(n as nat, offset as nat);
        }
        let end = if n - offset > CLIPBOARD_CHUNK_SIZE {
            offset + CLIPBOARD_CHUNK_SIZE
        } else {
            n
        };
        let mut piece: Vec<u8> = Vec::new();
        piece.extend_from_slice(&bytes[offset..end]);
        let is_last = end >= n;
        let ghost k = index as int;
        assert(offset == k * CLIPBOARD_CHUNK_SIZE);
        assert(piece@ == chunk_data(bytes@, k));
        r.push(ClipboardPayload::Chunk { id: copy_string_of_str(id), chunk_index: index, is_last, data: piece });
        proof {
            assert(is_chunk(r@[k], id@, bytes@, k));
        }
        offset = end;
        index = index + 1;
        proof {
            if offset < n {
                assert(offset == (k + 1) * CLIPBOARD_CHUNK_SIZE);
                assert(offset % CLIPBOARD_CHUNK_SIZE == 0);
                assert(index == offset / CLIPBOARD_CHUNK_SIZE);
                lemma_chunk_count_step(n as nat, offset as nat);
            }
        }
    }
    proof {
        if n == 0 {
            assert(chunk_count(0) == 0);
        }
    }
    r
}

/// The chunks that carry offered text `data`.
pub fn offered_text_chunks(id: &str, data: &str) -> (r: Vec<ClipboardPayload>)
    ensures
        r@.len() == chunk_count(encode_utf8(data@).len()),
        forall|k: int| 0 <= k < r@.len() ==> #[trigger] is_chunk(r@[k], id@, encode_utf8(data@), k),
{
    offer_chunks(id, data.as_bytes())
}

/// What receiving one chunk leads to: the accumulator afterwards, the last
/// progress value reported (percent, `Some(1)` when a transfer starts, `Some(0)`
/// when it ends) and, with the last chunk, the complete content.
pub struct ChunkStep {
    pub acc: Option<AccumulatorView>,
    pub progress: Option<u32>,
    pub completed: Option<(Seq<char>, Seq<u8>)>,
}

/// Whether the active promise is `id` and a paste waits for it.
pub open spec fn awaits_chunks(active: Option<PromiseView>, id: Seq<char>) -> bool {
    active matches Some(p) && p.uuid == id && p.awaiting_payload
}

/// The accumulator a chunk of `id` is added to: the current one when it
/// collects `id`, else a fresh one for the active promise.
pub open spec fn chunk_base(acc: Option<AccumulatorView>, active: Option<PromiseView>, id: Seq<char>) -> AccumulatorView {
    if acc matches Some(a) && a.id == id {
        acc->Some_0
    } else {
        AccumulatorView { id, format: active->Some_0.format, size: active->Some_0.size, buffer: Seq::empty() }
    }
}

/// Progress in percent of `received` out of `size` bytes, at most 100.
pub open spec fn percent(received: nat, size: nat) -> u32 {
    let p = received * 100 / size;
    if p > 100 {
        100
    } else {
        p as u32
    }
}

/// Receiving chunk `data` of content `id`, the last one when `is_last`.
pub open spec fn chunk_step(
    acc: Option<AccumulatorView>,
    active: Option<PromiseView>,
    id: Seq<char>,
    is_last: bool,
    data: Seq<u8>,
) -> ChunkStep {
    if !awaits_chunks(active, id) {
        ChunkStep { acc, progress: None, completed: None }
    } else {
        let fresh = !(acc matches Some(a) && a.id == id);
        let base = chunk_base(acc, active, id);
        let buffer = base.buffer + data;
        if is_last {
            ChunkStep { acc: None, progress: Some(0), completed: Some((base.format, buffer)) }
        } else {
            let progress = if base.size > 0 {
                Some(percent(buffer.len(), base.size as nat))
            } else if fresh {
                Some(1)
            } else {
                None
            };
            ChunkStep { acc: Some(AccumulatorView { buffer, ..base }), progress, completed: None }
        }
    }
}

/// Progress counts every byte received so far: a non-final chunk of
/// awaited content `id` is appended to the bytes already gathered for `id`
/// (none when the accumulator holds other content), and with a known size
/// the progress reported is a hundred times the gathered total over the
/// size, at most 100.
pub proof fn lemma_chunk_progress_counts_all_bytes(
    acc: Option<AccumulatorView>,
    active: Option<PromiseView>,
    id: Seq<char>,
    data: Seq<u8>,
)
    requires
        awaits_chunks(active, id),
    ensures
        ({
            let same = acc matches Some(a) && a.id == id;
            let before = if same { acc->Some_0.buffer } else { Seq::<u8>::empty() };
            let size: int = if same { acc->Some_0.size as int } else { active->Some_0.size as int };
            let total: int = before.len() as int + data.len() as int;
            let s = chunk_step(acc, active, id, false, data);
            &&& s.completed is None
            &&& s.acc matches Some(a)
            &&& a.id == id && a.buffer == before + data && a.size == size
            &&& size > 0 ==> (s.progress matches Some(p) && p as int == (if total * 100 / size > 100 {
                100
            } else {
                total * 100 / size
            }))
        }),
{
}

/// While chunks of the same content keep arriving, the progress reported
/// with a known size never goes down.
pub proof fn lemma_chunk_progress_never_decreases(
    acc: Option<AccumulatorView>,
    active: Option<PromiseView>,
    id: Seq<char>,
    d1: Seq<u8>,
    d2: Seq<u8>,
)
    requires
        awaits_chunks(active, id),
        chunk_base(acc, active, id).size > 0,
    ensures
        ({
            let s1 = chunk_step(acc, active, id, false, d1);
            let s2 = chunk_step(s1.acc, active, id, false, d2);
            &&& s1.progress is Some && s2.progress is Some
            &&& s1.progress->Some_0 <= s2.progress->Some_0
        }),
{
    lemma_chunk_progress_counts_all_bytes(acc, active, id, d1);
    let s1 = chunk_step(acc, active, id, false, d1);
    lemma_chunk_progress_counts_all_bytes(s1.acc, active, id, d2);
    let n = chunk_base(acc, active, id).size as int;
    let t1 = s1.acc->Some_0.buffer.len() as int;
    let t2 = t1 + d2.len();
    assert(t1 * 100 / n <= t2 * 100 / n) by (nonlinear_arith)
        requires
            n > 0,
            0 <= t1 <= t2,
    ;
}

/// Whether the progress computation of a chunk exceeds a `usize`.
pub open spec fn chunk_progress_overflows(
    acc: Option<AccumulatorView>,
    active: Option<PromiseView>,
    id: Seq<char>,
    data: Seq<u8>,
) -> bool {
    let base = chunk_base(acc, active, id);
    awaits_chunks(active, id) && base.size > 0 && (base.buffer.len() + data.len()) * 100 > usize::MAX
}

/// The outcome of receiving one chunk.
pub struct ChunkOutcome {
    /// The last progress value reported, if any.
    pub progress: Option<u32>,
    /// The format and bytes of the content, once complete.
    pub completed: Option<(String, Vec<u8>)>,
}

/// Receives chunk `data` of content `id` for the active promise `active`;
/// chunks of content nobody waits for are dropped.
pub fn handle_incoming_clipboard_chunk(
    acc: &mut Option<ClipboardAccumulator>,
    active: &Option<PromiseContext>,
    id: &str,
    is_last: bool,
    data: &[u8],
) -> (r: ChunkOutcome)
    requires
        !chunk_progress_overflows(accumulator_view(*old(acc)), promise_view(*active), id@, data@),
    ensures
        ({
            let step = chunk_step(accumulator_view(*old(acc)), promise_view(*active), id@, is_last, data@);
            &&& accumulator_view(*final(acc)) == step.acc
            &&& r.progress == step.progress
            &&& match r.completed {
                Some((f, b)) => step.completed == Some((f@, b@)),
                None => step.completed is None,
            }
        }),
{
    let (format, size) = match active {
        Some(p) => {
            if !(str_eq(p.uuid.as_str(), id) && p.awaiting_payload) {
                return ChunkOutcome { progress: None, completed: None };
            }
            (copy_string(&p.format), p.size)
        },
        None => {
            return ChunkOutcome { progress: None, completed: None };
        },
    };
    let fresh = match acc {
        Some(a) => !str_eq(a.id.as_str(), id),
        None => true,
    };
    let mut progress: Option<u32> = None;
    if fresh {
        *acc = Some(ClipboardAccumulator { id: copy_string_of_str(id), format, size, buffer: Vec::new() });
        progress = Some(1);
    }
    let mut a = match acc.take() {
        Some(a) => a,
        None => {
            return ChunkOutcome { progress: None, completed: None };
        },
    };
    let ghost step = chunk_step(accumulator_view(*old(acc)), promise_view(*active), id@, is_last, data@);
    let ghost base = chunk_base(accumulator_view(*old(acc)), promise_view(*active), id@);
    assert(a@ == base);
    a.buffer.extend_from_slice(data);
    assert(a.buffer@ == base.buffer + data@);
    if a.size > 0 {
        let p: usize = (a.buffer.len() * 100) / a.size;
        progress = Some(if p > 100 { 100 } else { p as u32 });
    }
    if is_last {
        assert(step.completed == Some((a.format@, a.buffer@)));
        ChunkOutcome { progress: Some(0), completed: Some((a.format, a.buffer)) }
    } else {
        *acc = Some(a);
        ChunkOutcome { progress, completed: None }
    }
}

/// The state after the first `k` chunks of `bytes` for content `id` arrived
/// in order, starting with no accumulator.
pub open spec fn feed_chunks(active: Option<PromiseView>, id: Seq<char>, bytes: Seq<u8>, k: nat) -> ChunkStep
    decreases k,
{
    if k == 0 {
        ChunkStep { acc: None, progress: None, completed: None }
    } else {
        let prev = feed_chunks(active, id, bytes, (k - 1) as nat);
        chunk_step(prev.acc, active, id, chunk_is_last(bytes.len(), k - 1), chunk_data(bytes, k - 1))
    }
}

proof fn lemma_feed_prefix(p: PromiseView, id: Seq<char>, bytes: Seq<u8>, k: nat)
    requires
        p.uuid == id,
        p.awaiting_payload,
        k < chunk_count(bytes.len()),
    ensures
        feed_chunks(Some(p), id, bytes, k).acc == (if k == 0 {
            None
        } else {
            Some(AccumulatorView { id, format: p.format, size: p.size, buffer: bytes.take(k * CLIPBOARD_CHUNK_SIZE) })
        }),
        feed_chunks(Some(p), id, bytes, k).completed is None,
        k * CLIPBOARD_CHUNK_SIZE < bytes.len(),
    decreases k,
{
    let c = CLIPBOARD_CHUNK_SIZE as nat;
    let n = bytes.len();
    let off = k * c;
    let m = (n - 1) as nat / c;
    assert(k * c <= m * c) by (nonlinear_arith)
        requires
            k <= m,
    ;
    assert(m * c <= (n - 1) as nat) by (nonlinear_arith)
        requires
            c > 0,
            m == (n - 1) as nat / c,
    ;
    if k > 0 {
        let j = (k - 1) as nat;
        lemma_feed_prefix(p, id, bytes, j);
        assert(off % c == 0) by (nonlinear_arith)
            requires
                off == k * c,
                c > 0,
        ;
        assert(j * c + c == off) by (nonlinear_arith)
            requires
                j + 1 == k,
                off == k * c,
        ;
        assert(!chunk_is_last(n, j as int));
        let d = chunk_data(bytes, j as int);
        assert(d == bytes.subrange((j * c) as int, off as int));
        if j == 0 {
            assert(bytes.take(off as int) =~= Seq::<u8>::empty() + d);
        } else {
            assert(bytes.take(off as int) =~= bytes.take((j * c) as int) + d);
        }
    }
}

/// Chunks of content that arrive in order while a paste waits for it add
/// up to the content: the last chunk completes it with the promised format
/// and exactly the bytes that were cut into chunks.
pub proof fn lemma_chunks_reassemble(p: PromiseView, id: Seq<char>, bytes: Seq<u8>)
    requires
        p.uuid == id,
        p.awaiting_payload,
        bytes.len() > 0,
    ensures
        feed_chunks(Some(p), id, bytes, chunk_count(bytes.len())).completed == Some((p.format, bytes)),
        feed_chunks(Some(p), id, bytes, chunk_count(bytes.len())).acc is None,
{
    let c = CLIPBOARD_CHUNK_SIZE as nat;
    let n = bytes.len();
    let m = chunk_count(n);
    let j = (m - 1) as nat;
    lemma_feed_prefix(p, id, bytes, j);
    let off = j * c;
    assert(off + c >= n) by (nonlinear_arith)
        requires
            j == (n - 1) as nat / c,
            off == j * c,
            c > 0,
            n > 0,
    ;
    assert(chunk_is_last(n, j as int));
    let d = chunk_data(bytes, j as int);
    assert(d == bytes.subrange(off as int, n as int));
    if j == 0 {
        assert(Seq::<u8>::empty() + d =~= bytes);
    } else {
        assert(bytes.take(off as int) + d =~= bytes);
    }
}

/// Offered text that travels in chunks arrives as the same text.
pub proof fn lemma_offered_text_roundtrip(p: PromiseView, id: Seq<char>, text: Seq<char>)
    requires
        p.uuid == id,
        p.awaiting_payload,
        text.len() > 0,
    ensures
        ({
            let bytes = encode_utf8(text);
            let done = feed_chunks(Some(p), id, bytes, chunk_count(bytes.len())).completed;
            &&& done matches Some((f, b))
            &&& valid_utf8(b)
            &&& decode_utf8(b) == text
        }),
{
    let bytes = encode_utf8(text);
    encode_utf8_valid_utf8(text);
    encode_utf8_decode_utf8(text);
    assert(bytes.len() > 0) by {
        if bytes.len() == 0 {
            assert(decode_utf8(bytes) =~= Seq::<char>::empty());
        }
    }
    lemma_chunks_reassemble(p, id, bytes);
}

/// The bytes of `ds` one after another.
pub open spec fn concat_pieces(ds: Seq<Seq<u8>>) -> Seq<u8>
    decreases ds.len(),
{
    if ds.len() == 0 {
        Seq::empty()
    } else {
        concat_pieces(ds.drop_last()) + ds.last()
    }
}

/// The state after the first `k` of the chunks `ds` of content `id` arrived
/// in order, starting with no accumulator; only the final chunk of `ds` is
/// marked last.
pub open spec fn feed_pieces(active: Option<PromiseView>, id: Seq<char>, ds: Seq<Seq<u8>>, k: nat) -> ChunkStep
    decreases k,
{
    if k == 0 {
        ChunkStep { acc: None, progress: None, completed: None }
    } else {
        let prev = feed_pieces(active, id, ds, (k - 1) as nat);
        chunk_step(prev.acc, active, id, k == ds.len(), ds[k - 1])
    }
}

proof fn lemma_feed_pieces_prefix(p: PromiseView, id: Seq<char>, ds: Seq<Seq<u8>>, k: nat)
    requires
        p.uuid == id,
        p.awaiting_payload,
        k < ds.len(),
    ensures
        feed_pieces(Some(p), id, ds, k).completed is None,
        feed_pieces(Some(p), id, ds, k).acc == (if k == 0 {
            None
        } else {
            Some(AccumulatorView { id, format: p.format, size: p.size, buffer: concat_pieces(ds.take(k as int)) })
        }),
    decreases k,
{
    if k > 0 {
        let j = (k - 1) as nat;
        lemma_feed_pieces_prefix(p, id, ds, j);
        assert(ds.take(k as int).drop_last() =~= ds.take(j as int));
        assert(ds.take(k as int).last() == ds[j as int]);
        if j == 0 {
            assert(ds.take(0) =~= Seq::<Seq<u8>>::empty());
            assert(Seq::<u8>::empty() + ds[0] =~= concat_pieces(ds.take(k as int)));
        }
    }
}

proof fn lemma_concat_take_len(ds: Seq<Seq<u8>>, k: int)
    requires
        0 <= k < ds.len(),
    ensures
        concat_pieces(ds.take(k + 1)) == concat_pieces(ds.take(k)) + ds[k],
        concat_pieces(ds.take(k + 1)).len() <= concat_pieces(ds).len(),
    decreases ds.len(),
{
    assert(ds.take(k + 1).drop_last() =~= ds.take(k));
    if k + 1 < ds.len() {
        lemma_concat_take_len(ds.drop_last(), k);
        assert(ds.drop_last().take(k + 1) =~= ds.take(k + 1));
        assert(ds.drop_last().take(k) =~= ds.take(k));
    } else {
        assert(ds.take(k + 1) =~= ds);
    }
}

/// Chunks of content `id` that arrive in order while a paste waits for it,
/// however the content was cut, hand the content over exactly once: no
/// chunk before the last completes anything, and the last completes it
/// with the promised format and all the bytes, leaving no accumulator.
/// When the promised size is 0, or a hundred times the content fits in a
/// `usize`, no chunk's progress computation overflows on the way.
pub proof fn lemma_chunks_delivered_once(p: PromiseView, id: Seq<char>, ds: Seq<Seq<u8>>)
    requires
        p.uuid == id,
        p.awaiting_payload,
        ds.len() > 0,
    ensures
        forall|k: nat| k < ds.len() ==> (#[trigger] feed_pieces(Some(p), id, ds, k)).completed is None,
        feed_pieces(Some(p), id, ds, ds.len()).completed == Some((p.format, concat_pieces(ds))),
        feed_pieces(Some(p), id, ds, ds.len()).acc is None,
        p.size == 0 || concat_pieces(ds).len() * 100 <= usize::MAX ==> forall|k: nat|
            k < ds.len() ==> !chunk_progress_overflows(
                (#[trigger] feed_pieces(Some(p), id, ds, k)).acc,
                Some(p),
                id,
                ds[k as int],
            ),
{
    assert forall|k: nat| k < ds.len() implies (#[trigger] feed_pieces(Some(p), id, ds, k)).completed is None
        && (p.size == 0 || concat_pieces(ds).len() * 100 <= usize::MAX ==> !chunk_progress_overflows(
        feed_pieces(Some(p), id, ds, k).acc,
        Some(p),
        id,
        ds[k as int],
    )) by {
        lemma_feed_pieces_prefix(p, id, ds, k);
        lemma_concat_take_len(ds, k as int);
        if k == 0 {
            assert(ds.take(0) =~= Seq::<Seq<u8>>::empty());
        }
        let base = chunk_base(feed_pieces(Some(p), id, ds, k).acc, Some(p), id);
        assert(base.buffer == concat_pieces(ds.take(k as int)));
        assert(base.size == p.size);
        if concat_pieces(ds).len() * 100 <= usize::MAX {
            assert((base.buffer.len() + ds[k as int].len()) * 100 <= concat_pieces(ds).len() * 100) by (nonlinear_arith)
                requires
                    base.buffer.len() + ds[k as int].len() <= concat_pieces(ds).len(),
            ;
        }
    }
    let j = (ds.len() - 1) as nat;
    lemma_feed_pieces_prefix(p, id, ds, j);
    assert(ds.take(j as int) =~= ds.drop_last());
    if j == 0 {
        assert(Seq::<u8>::empty() + ds[0] =~= concat_pieces(ds));
    }
}

/// A chunk of content no paste waits for changes nothing and completes
/// nothing.
pub proof fn lemma_unawaited_chunk_ignored(
    acc: Option<AccumulatorView>,
    active: Option<PromiseView>,
    id: Seq<char>,
    is_last: bool,
    data: Seq<u8>,
)
    requires
        !awaits_chunks(active, id),
    ensures
        chunk_step(acc, active, id, is_last, data) == (ChunkStep { acc, progress: None, completed: None }),
{
}

/// What completed clipboard content turns into.
pub enum DecodedClipboard {
    /// Text, ready to fulfil the promise.
    Text(String),
    /// A serialised file list, to be unpacked into local files.
    Files,
    /// Text that is not UTF-8, or an unknown format.
    Invalid,
}

/// Decodes completed content of the given format.
pub fn decode_completed(format: &str, bytes: &[u8]) -> (r: DecodedClipboard)
    ensures
        format@ == "text"@ ==> if valid_utf8(bytes@) {
            r matches DecodedClipboard::Text(t) && t@ == decode_utf8(bytes@)
        } else {
            r is Invalid
        },
        format@ == "files"@ ==> r is Files,
        format@ != "text"@ && format@ != "files"@ ==> r is Invalid,
{
    proof {
        reveal_strlit("text");
        reveal_strlit("files");
        assert("text"@.len() != "files"@.len());
    }
    if str_eq(format, "text") {
        match crate::network::udp::str_from_utf8(bytes) {
            Ok(t) => DecodedClipboard::Text(copy_string_of_str(t)),
            Err(_) => DecodedClipboard::Invalid,
        }
    } else if str_eq(format, "files") {
        DecodedClipboard::Files
    } else {
        DecodedClipboard::Invalid
    }
}

/// The payload that fulfils a promise with decoded text.
pub fn text_fulfillment(decoded: DecodedClipboard) -> (r: Option<FulfillmentPayload>)
    ensures
        match decoded {
            DecodedClipboard::Text(t) => r matches Some(FulfillmentPayload::Text(u)) && u@ == t@,
            _ => r is None,
        },
{
    match decoded {
        DecodedClipboard::Text(t) => Some(FulfillmentPayload::Text(t)),
        _ => None,
    }
}

} // verus!
