//! The content-hash verifier: the SHA256 table of a release index, and
//! verification of a file against it.

use vstd::prelude::*;
use vstd::string::*;
use crate::strutil::{lines, spec_lines, split_ws, spec_split_ws, starts_with, spec_starts_with, str_eq, u64_to_string, spec_dec_digits, spec_digit_char, spec_is_ws, spec_split, spec_strip_cr, spec_ws_end, lemma_split_at, lemma_ws_end_at};

verus! {

/// What the SHA-256 digest of a byte string is, named: the result
/// depends on the bytes alone.
pub uninterp spec fn sha256_of(data: Seq<u8>) -> Seq<u8>;

/// Relies on sha2::Sha256 through digest::Digest::digest: the digest is
/// thirty-two bytes and depends on the input bytes alone.
#[verifier::external_body]
fn sha256_digest(data: &[u8]) -> (r: Vec<u8>)
    ensures
        r@ == sha256_of(data@),
        r@.len() == 32,
{
    let out = <sha2::Sha256 as sha2::Digest>::digest(data);
    out.as_slice().to_vec()
}

/// The hexadecimal digit characters, lower case.
pub open spec fn spec_hex_char(d: int) -> char {
    if d == 0 {
        '0'
    } else if d == 1 {
        '1'
    } else if d == 2 {
        '2'
    } else if d == 3 {
        '3'
    } else if d == 4 {
        '4'
    } else if d == 5 {
        '5'
    } else if d == 6 {
        '6'
    } else if d == 7 {
        '7'
    } else if d == 8 {
        '8'
    } else if d == 9 {
        '9'
    } else if d == 10 {
        'a'
    } else if d == 11 {
        'b'
    } else if d == 12 {
        'c'
    } else if d == 13 {
        'd'
    } else if d == 14 {
        'e'
    } else {
        'f'
    }
}

/// Bytes as lower-case hex text, two digits a byte.
pub open spec fn spec_to_hex_lower(data: Seq<u8>) -> Seq<char>
    decreases data.len(),
{
    if data.len() == 0 {
        Seq::<char>::empty()
    } else {
        spec_to_hex_lower(data.drop_last()) + seq![
            spec_hex_char(data.last() as int / 16),
            spec_hex_char(data.last() as int % 16),
        ]
    }
}

/// What the SHA-256 digest of a byte string reads as lower-case hex.
pub open spec fn sha256_hex_of(data: Seq<u8>) -> Seq<char> {
    spec_to_hex_lower(sha256_of(data))
}

fn hex_digit_str(d: u8) -> (s: &'static str)
    requires
        d < 16,
    ensures
        s@ == seq![spec_hex_char(d as int)],
{
    proof {
        reveal_strlit("0");
        reveal_strlit("1");
        reveal_strlit("2");
        reveal_strlit("3");
        reveal_strlit("4");
        reveal_strlit("5");
        reveal_strlit("6");
        reveal_strlit("7");
        reveal_strlit("8");
        reveal_strlit("9");
        reveal_strlit("a");
        reveal_strlit("b");
        reveal_strlit("c");
        reveal_strlit("d");
        reveal_strlit("e");
        reveal_strlit("f");
    }
    let s = if d == 0 {
        "0"
    } else if d == 1 {
        "1"
    } else if d == 2 {
        "2"
    } else if d == 3 {
        "3"
    } else if d == 4 {
        "4"
    } else if d == 5 {
        "5"
    } else if d == 6 {
        "6"
    } else if d == 7 {
        "7"
    } else if d == 8 {
        "8"
    } else if d == 9 {
        "9"
    } else if d == 10 {
        "a"
    } else if d == 11 {
        "b"
    } else if d == 12 {
        "c"
    } else if d == 13 {
        "d"
    } else if d == 14 {
        "e"
    } else {
        "f"
    };
    assert(s@ =~= seq![spec_hex_char(d as int)]);
    s
}

/// Render bytes as lower-case hex.
#[verifier::loop_isolation(false)]
pub fn to_hex_lower(data: &Vec<u8>) -> (r: String)
    ensures
        r@ == spec_to_hex_lower(data@),
{
    let mut r = String::new();
    let n = data.len();
    let mut i: usize = 0;
    proof {
        assert(data@.take(0).len() == 0);
        assert(r@ =~= spec_to_hex_lower(data@.take(0)));
    }
    while i < n
        invariant
            i <= n,
            r@ == spec_to_hex_lower(data@.take(i as int)),
        decreases n - i,
    {
        let b = data[i];
        proof {
            assert(data@.take(i + 1).drop_last() =~= data@.take(i as int));
            assert(data@.take(i + 1).last() == data@[i as int]);
        }
        r.append(hex_digit_str(b / 16));
        r.append(hex_digit_str(b % 16));
        i = i + 1;
    }
    proof {
        assert(data@.take(n as int) =~= data@);
    }
    r
}

/// Hash bytes and render the digest as lower-case hex.
fn sha256_hex(data: &[u8]) -> (r: String)
    ensures
        r@ == sha256_hex_of(data@),
        r@.len() == 64,
{
    let digest = sha256_digest(data);
    let r = to_hex_lower(&digest);
    proof {
        lemma_hex_len(digest@);
    }
    r
}

/// Hex text is twice as long as its bytes.
proof fn lemma_hex_len(data: Seq<u8>)
    ensures
        spec_to_hex_lower(data).len() == 2 * data.len(),
    decreases data.len(),
{
    if data.len() > 0 {
        lemma_hex_len(data.drop_last());
    }
}

/// The checksum table of a release index: filename-to-digest pairs in
/// the order the lines gave them, a later line shadowing an earlier one.
pub struct ReleaseHashes {
    entries: Vec<(String, String)>,
}

/// Look a key up, the last binding winning.
pub open spec fn spec_lookup(s: Seq<(Seq<char>, Seq<char>)>, k: Seq<char>) -> Option<Seq<char>>
    decreases s.len(),
{
    if s.len() == 0 {
        None
    } else if s.last().0 == k {
        Some(s.last().1)
    } else {
        spec_lookup(s.drop_last(), k)
    }
}

impl ReleaseHashes {
    /// The pairs the table stands for.
    pub closed spec fn spec_entries(&self) -> Seq<(Seq<char>, Seq<char>)> {
        Seq::new(self.entries@.len(), |i: int| (self.entries@[i].0@, self.entries@[i].1@))
    }

    /// An empty table.
    pub fn new() -> (r: ReleaseHashes)
        ensures
            r.spec_entries() == Seq::<(Seq<char>, Seq<char>)>::empty(),
    {
        let r = ReleaseHashes { entries: Vec::new() };
        proof {
            assert(r.spec_entries() =~= Seq::<(Seq<char>, Seq<char>)>::empty());
        }
        r
    }

    /// Bind a filename to a digest.
    pub fn insert(&mut self, filename: String, digest: String)
        ensures
            final(self).spec_entries() == old(self).spec_entries().push((filename@, digest@)),
    {
        let ghost fv = filename@;
        let ghost dv = digest@;
        self.entries.push((filename, digest));
        proof {
            assert(self.spec_entries() =~= old(self).spec_entries().push((fv, dv)));
        }
    }

    /// The digest bound to a filename, if any.
    pub fn get(&self, filename: &str) -> (r: Option<&String>)
        ensures
            match r {
                Some(d) => spec_lookup(self.spec_entries(), filename@) == Some(d@),
                None => spec_lookup(self.spec_entries(), filename@) is None,
            },
    {
        let n = self.entries.len();
        let mut i: usize = n;
        proof {
            assert(self.spec_entries().take(n as int) =~= self.spec_entries());
        }
        while i > 0
            invariant
                i <= n,
                n == self.entries@.len(),
                spec_lookup(self.spec_entries(), filename@) == spec_lookup(
                    self.spec_entries().take(i as int),
                    filename@,
                ),
            decreases i,
        {
            proof {
                assert(self.spec_entries().take(i as int).last() == self.spec_entries()[i
                    - 1]);
                assert(self.spec_entries().take(i as int).drop_last()
                    =~= self.spec_entries().take(i - 1));
            }
            if str_eq(self.entries[i - 1].0.as_str(), filename) {
                return Some(&self.entries[i - 1].1);
            }
            i = i - 1;
        }
        proof {
            assert(self.spec_entries().take(0).len() == 0);
        }
        None
    }

    /// How many lines the table holds.
    pub fn len(&self) -> (r: usize)
        ensures
            r == self.spec_entries().len(),
    {
        self.entries.len()
    }
}

/// The state of the table scan after a sequence of lines: the pairs
/// gathered so far, and whether the scan stands inside the SHA256
/// section.
pub open spec fn spec_hash_scan(lines: Seq<Seq<char>>) -> (Seq<(Seq<char>, Seq<char>)>, bool)
    decreases lines.len(),
{
    if lines.len() == 0 {
        (Seq::<(Seq<char>, Seq<char>)>::empty(), false)
    } else {
        let prev = spec_hash_scan(lines.drop_last());
        let line = lines.last();
        if spec_starts_with(line, "SHA256:"@) {
            (prev.0, true)
        } else if line.len() == 0 || spec_starts_with(line, "MD5Sum:"@) || spec_starts_with(
            line,
            "SHA1:"@,
        ) {
            (prev.0, false)
        } else if prev.1 {
            let toks = spec_split_ws(line);
            if toks.len() >= 3 {
                (prev.0.push((toks[2], toks[0])), true)
            } else {
                prev
            }
        } else {
            prev
        }
    }
}

/// The table a release index's text denotes.
pub open spec fn spec_parse_release_hashes(text: Seq<char>) -> Seq<(Seq<char>, Seq<char>)> {
    spec_hash_scan(spec_lines(text)).0
}

/// One checksum line: digest, size and filename, space-separated, with a
/// trailing newline.
pub open spec fn spec_checksum_line(e: (Seq<char>, u64, Seq<char>)) -> Seq<char> {
    e.2 + " "@ + spec_dec_digits(e.1 as int) + " "@ + e.0 + "\n"@
}

/// The checksum lines of a table, in order.
pub open spec fn spec_format_lines(entries: Seq<(Seq<char>, u64, Seq<char>)>) -> Seq<char>
    decreases entries.len(),
{
    if entries.len() == 0 {
        Seq::<char>::empty()
    } else {
        spec_checksum_line(entries.first()) + spec_format_lines(entries.drop_first())
    }
}

/// A whole SHA256 section: the marker line, then one line an entry.
pub open spec fn spec_format_checksums(entries: Seq<(Seq<char>, u64, Seq<char>)>) -> Seq<char> {
    "SHA256:\n"@ + spec_format_lines(entries)
}

/// The view of a checksum entry list.
pub open spec fn spec_entries_view(entries: Seq<(String, u64, String)>) -> Seq<
    (Seq<char>, u64, Seq<char>),
> {
    entries.map_values(|e: (String, u64, String)| (e.0@, e.1, e.2@))
}

pub struct HashVerifier;

impl HashVerifier {
    /// Hash the data and compare with the expected lower-case hex digest.
    /// Agreement answers true; disagreement is an error.
    pub fn verify_package_hash(data: &[u8], expected_hash: &str) -> (r: Result<bool, String>)
        ensures
            r is Ok <==> sha256_hex_of(data@) == expected_hash@,
            r is Ok ==> r->Ok_0 == true,
            r is Err ==> r->Err_0@ == "SHA256 hash verification failed"@,
    {
        proof {
            reveal_strlit("SHA256 hash verification failed");
        }
        let calculated = sha256_hex(data);
        if str_eq(calculated.as_str(), expected_hash) {
            Ok(true)
        } else {
            Err(String::from_str("SHA256 hash verification failed"))
        }
    }

    /// Read the SHA256 section of a release index: each of its lines is a
    /// whitespace-split triple of digest, size and filename.
    #[verifier::loop_isolation(false)]
    pub fn parse_release_hashes(release_content: &str) -> (r: Result<ReleaseHashes, String>)
        ensures
            r is Ok,
            r->Ok_0.spec_entries() == spec_parse_release_hashes(release_content@),
    {
        proof {
            reveal_strlit("SHA256:");
            reveal_strlit("MD5Sum:");
            reveal_strlit("SHA1:");
        }
        let all_lines = lines(release_content);
        let ghost glines = spec_lines(release_content@);
        let mut hashes = ReleaseHashes::new();
        let mut in_section = false;
        let n = all_lines.len();
        let mut i: usize = 0;
        while i < n
            invariant
                i <= n,
                (hashes.spec_entries(), in_section) == spec_hash_scan(glines.take(i as int)),
            decreases n - i,
        {
            let line = all_lines[i].as_str();
            proof {
                assert(line@ == glines[i as int]);
                assert(glines.take(i + 1).drop_last() =~= glines.take(i as int));
                assert(glines.take(i + 1).last() == glines[i as int]);
            }
            if starts_with(line, "SHA256:") {
                in_section = true;
            } else if line.unicode_len() == 0 || starts_with(line, "MD5Sum:") || starts_with(
                line,
                "SHA1:",
            ) {
                in_section = false;
            } else if in_section {
                let parts = split_ws(line);
                if parts.len() >= 3 {
                    proof {
                        assert(parts.deep_view()[0] == spec_split_ws(line@)[0]);
                        assert(parts.deep_view()[2] == spec_split_ws(line@)[2]);
                    }
                    let hash = parts[0].clone();
                    let filename = parts[2].clone();
                    hashes.insert(filename, hash);
                }
            }
            i = i + 1;
        }
        proof {
            assert(glines.take(n as int) =~= glines);
        }
        Ok(hashes)
    }

    /// Write a checksum table out as the SHA256 section of a release
    /// index: the marker line, then one `digest size filename` line for
    /// each entry, where an entry is a filename, a size and a digest.
    #[verifier::loop_isolation(false)]
    pub fn format_checksums(entries: &Vec<(String, u64, String)>) -> (r: String)
        ensures
            r@ == spec_format_checksums(spec_entries_view(entries@)),
    {
        proof {
            reveal_strlit("SHA256:\n");
            reveal_strlit(" ");
            reveal_strlit("\n");
        }
        let ghost gview = spec_entries_view(entries@);
        let mut r = String::from_str("SHA256:\n");
        let n = entries.len();
        let mut i: usize = 0;
        proof {
            lemma_format_take(gview, 0);
        }
        while i < n
            invariant
                i <= n,
                r@ == "SHA256:\n"@ + spec_format_lines(gview.take(i as int)),
            decreases n - i,
        {
            let entry = &entries[i];
            proof {
                assert(gview[i as int] == (entry.0@, entry.1, entry.2@));
                lemma_format_lines_snoc(gview, i as int);
            }
            r.append(entry.2.as_str());
            r.append(" ");
            r.append(u64_to_string(entry.1).as_str());
            r.append(" ");
            r.append(entry.0.as_str());
            r.append("\n");
            proof {
                assert(r@ =~= "SHA256:\n"@ + spec_format_lines(gview.take(i + 1)));
            }
            i = i + 1;
        }
        proof {
            assert(gview.take(n as int) =~= gview);
        }
        r
    }

    /// Verify a file against the table: a filename missing from the table
    /// is an error, else its digest decides.
    pub fn verify_file_against_release(
        file_data: &[u8],
        filename: &str,
        release_hashes: &ReleaseHashes,
    ) -> (r: Result<bool, String>)
        ensures
            ({
                let looked = spec_lookup(release_hashes.spec_entries(), filename@);
                match looked {
                    Some(expected) => (r is Ok <==> sha256_hex_of(file_data@) == expected) && (
                    r is Ok ==> r->Ok_0 == true) && (r is Err ==> r->Err_0@
                        == "SHA256 hash verification failed"@),
                    None => r is Err && r->Err_0@ == "No hash found for file: "@ + filename@,
                }
            }),
    {
        match release_hashes.get(filename) {
            Some(expected_hash) => Self::verify_package_hash(file_data, expected_hash.as_str()),
            None => {
                proof {
                    reveal_strlit("No hash found for file: ");
                }
                let mut msg = String::from_str("No hash found for file: ");
                msg.append(filename);
                Err(msg)
            },
        }
    }
}

/// The empty prefix formats to nothing.
proof fn lemma_format_take(entries: Seq<(Seq<char>, u64, Seq<char>)>, i: int)
    requires
        0 <= i <= entries.len(),
    ensures
        spec_format_lines(entries.take(0)) == Seq::<char>::empty(),
{
    assert(entries.take(0).len() == 0);
}

/// Extending a prefix by one entry appends that entry's line.
proof fn lemma_format_lines_snoc(entries: Seq<(Seq<char>, u64, Seq<char>)>, i: int)
    requires
        0 <= i < entries.len(),
    ensures
        spec_format_lines(entries.take(i + 1)) == spec_format_lines(entries.take(i))
            + spec_checksum_line(entries[i]),
    decreases i,
{
    if i == 0 {
        let t = entries.take(1);
        assert(t.first() == entries[0]);
        assert(t.drop_first() =~= entries.take(0));
        assert(spec_format_lines(entries.take(0)) == Seq::<char>::empty());
        assert(spec_format_lines(entries.take(1)) =~= spec_checksum_line(entries[0]));
        assert(spec_format_lines(entries.take(0)) + spec_checksum_line(entries[0])
            =~= spec_checksum_line(entries[0]));
    } else {
        lemma_format_lines_snoc(entries.drop_first(), i - 1);
        let a = entries.take(i + 1);
        let b = entries.take(i);
        assert(a.first() == entries[0]);
        assert(b.first() == entries[0]);
        assert(a.drop_first() =~= entries.drop_first().take(i));
        assert(b.drop_first() =~= entries.drop_first().take(i - 1));
        assert(entries.drop_first()[i - 1] == entries[i]);
        assert(spec_format_lines(a) == spec_checksum_line(entries[0]) + spec_format_lines(
            entries.drop_first().take(i),
        ));
        assert(spec_format_lines(b) == spec_checksum_line(entries[0]) + spec_format_lines(
            entries.drop_first().take(i - 1),
        ));
        assert(spec_format_lines(a) =~= spec_format_lines(b) + spec_checksum_line(entries[i]));
    }
}

/// A well-formed checksum entry: the filename and the digest are
/// nonempty and free of whitespace, and the digest does not itself open
/// with a section marker.  Hexadecimal digests satisfy all of this.
pub open spec fn spec_wf_checksum_entry(e: (Seq<char>, u64, Seq<char>)) -> bool {
    e.0.len() > 0 && e.2.len() > 0 && (forall|i: int|
        0 <= i < e.0.len() ==> !spec_is_ws(#[trigger] e.0[i])) && (forall|i: int|
        0 <= i < e.2.len() ==> !spec_is_ws(#[trigger] e.2[i]))
        && !crate::strutil::spec_starts_with(e.2, "SHA256:"@)
        && !crate::strutil::spec_starts_with(e.2, "MD5Sum:"@)
        && !crate::strutil::spec_starts_with(e.2, "SHA1:"@)
}

/// The text of one checksum line without its newline.
pub open spec fn spec_line_body(e: (Seq<char>, u64, Seq<char>)) -> Seq<char> {
    e.2 + " "@ + spec_dec_digits(e.1 as int) + " "@ + e.0
}

/// Decimal renderings are nonempty strings of digit characters.
proof fn lemma_dec_digits_wf(n: int)
    ensures
        spec_dec_digits(n).len() >= 1,
        forall|i: int|
            0 <= i < spec_dec_digits(n).len() ==> '0' <= #[trigger] spec_dec_digits(n)[i]
                && spec_dec_digits(n)[i] <= '9',
    decreases n,
{
    if n >= 10 {
        lemma_dec_digits_wf(n / 10);
        assert(spec_dec_digits(n) == spec_dec_digits(n / 10).push(spec_digit_char(n % 10)));
    }
}

/// Splitting a newline-terminated piece off the front.
proof fn lemma_split_line_off(body: Seq<char>, rest: Seq<char>)
    requires
        forall|i: int| 0 <= i < body.len() ==> #[trigger] body[i] != '\n',
    ensures
        spec_split(body + seq!['\n'] + rest, '\n') == seq![body] + spec_split(rest, '\n'),
{
    let t = body + seq!['\n'] + rest;
    assert forall|k: int| 0 <= k < body.len() implies t[k] != '\n' by {
        assert(t[k] == body[k]);
    }
    assert(t[body.len() as int] == '\n');
    lemma_split_at(t, '\n', body.len() as int);
    assert(t.subrange(0, body.len() as int) =~= body);
    assert(t.subrange(body.len() as int + 1, t.len() as int) =~= rest);
}

/// One whitespace-free token comes off the front of a space-joined line.
proof fn lemma_split_ws_token(tok: Seq<char>, rest: Seq<char>)
    requires
        tok.len() > 0,
        forall|i: int| 0 <= i < tok.len() ==> !spec_is_ws(#[trigger] tok[i]),
    ensures
        spec_split_ws(tok + seq![' '] + rest) == seq![tok] + spec_split_ws(rest),
{
    let s = tok + seq![' '] + rest;
    assert forall|k: int| 0 <= k < tok.len() implies !spec_is_ws(s[k]) by {
        assert(s[k] == tok[k]);
    }
    assert(s[tok.len() as int] == ' ');
    assert(spec_is_ws(s[tok.len() as int]));
    lemma_ws_end_at(s, tok.len() as int);
    assert(!spec_is_ws(s[0]));
    assert(s.subrange(0, tok.len() as int) =~= tok);
    assert(spec_split_ws(s) == seq![s.subrange(0, tok.len() as int)] + spec_split_ws(
        s.subrange(tok.len() as int, s.len() as int),
    ));
    let mid = s.subrange(tok.len() as int, s.len() as int);
    assert(spec_is_ws(mid[0]));
    assert(mid.drop_first() =~= rest);
    assert(spec_split_ws(mid) == spec_split_ws(rest));
}

/// A single whitespace-free token splits to itself.
proof fn lemma_split_ws_single(tok: Seq<char>)
    requires
        tok.len() > 0,
        forall|i: int| 0 <= i < tok.len() ==> !spec_is_ws(#[trigger] tok[i]),
    ensures
        spec_split_ws(tok) == seq![tok],
{
    lemma_ws_end_at(tok, tok.len() as int);
    assert(spec_ws_end(tok) == tok.len());
    assert(!spec_is_ws(tok[0]));
    assert(tok.subrange(0, tok.len() as int) =~= tok);
    let rest = tok.subrange(tok.len() as int, tok.len() as int);
    assert(rest.len() == 0);
    assert(spec_split_ws(rest) =~= Seq::<Seq<char>>::empty());
    assert(spec_split_ws(tok) == seq![tok.subrange(0, tok.len() as int)] + spec_split_ws(rest));
    assert(spec_split_ws(tok) =~= seq![tok]);
}

/// The tokens of a well-formed checksum line: digest, size, filename.
proof fn lemma_line_tokens(e: (Seq<char>, u64, Seq<char>))
    requires
        spec_wf_checksum_entry(e),
    ensures
        spec_split_ws(spec_line_body(e)) == seq![e.2, spec_dec_digits(e.1 as int), e.0],
{
    reveal_strlit(" ");
    assert(" "@ =~= seq![' ']);
    lemma_dec_digits_wf(e.1 as int);
    let dec = spec_dec_digits(e.1 as int);
    assert forall|i: int| 0 <= i < dec.len() implies !spec_is_ws(dec[i]) by {
        assert('0' <= dec[i] && dec[i] <= '9');
    }
    let tail2 = dec + seq![' '] + e.0;
    assert(spec_line_body(e) =~= e.2 + seq![' '] + tail2);
    lemma_split_ws_token(e.2, tail2);
    assert(tail2 =~= dec + seq![' '] + e.0);
    lemma_split_ws_token(dec, e.0);
    lemma_split_ws_single(e.0);
    assert(spec_split_ws(spec_line_body(e)) =~= seq![e.2, dec, e.0]);
}

/// A well-formed checksum line is no section marker.
proof fn lemma_line_not_marker(e: (Seq<char>, u64, Seq<char>))
    requires
        spec_wf_checksum_entry(e),
    ensures
        !crate::strutil::spec_starts_with(spec_line_body(e), "SHA256:"@),
        !crate::strutil::spec_starts_with(spec_line_body(e), "MD5Sum:"@),
        !crate::strutil::spec_starts_with(spec_line_body(e), "SHA1:"@),
        spec_line_body(e).len() > 0,
        forall|i: int|
            0 <= i < spec_line_body(e).len() ==> #[trigger] spec_line_body(e)[i] != '\n',
        spec_line_body(e).last() != '\r',
{
    reveal_strlit("SHA256:");
    reveal_strlit("MD5Sum:");
    reveal_strlit("SHA1:");
    reveal_strlit(" ");
    lemma_dec_digits_wf(e.1 as int);
    let line = spec_line_body(e);
    let d = e.2;
    assert forall|i: int| 0 <= i < line.len() implies line[i] != '\n' by {
        if i < d.len() {
            assert(line[i] == d[i]);
            assert(!spec_is_ws(d[i]));
        } else if i == d.len() {
            assert(line[i] == ' ');
        } else if i < d.len() + 1 + spec_dec_digits(e.1 as int).len() {
            assert(line[i] == spec_dec_digits(e.1 as int)[i - d.len() - 1]);
            assert('0' <= line[i] && line[i] <= '9');
        } else if i == d.len() + 1 + spec_dec_digits(e.1 as int).len() {
            assert(line[i] == ' ');
        } else {
            assert(line[i] == e.0[i - d.len() - 2 - spec_dec_digits(e.1 as int).len()]);
            assert(!spec_is_ws(line[i]));
        }
    }
    assert(line.last() == e.0.last());
    assert(!spec_is_ws(line.last()));
    // a marker prefix would put a colon or letter where the digest ends
    if crate::strutil::spec_starts_with(line, "SHA256:"@) {
        if d.len() >= 7 {
            assert forall|k: int| 0 <= k < 7 implies d[k] == "SHA256:"@[k] by {
                assert(line.subrange(0, 7)[k] == line[k]);
                assert(line[k] == d[k]);
            }
            assert(d.subrange(0, 7) =~= "SHA256:"@);
            assert(crate::strutil::spec_starts_with(d, "SHA256:"@));
            assert(false);
        } else {
            assert(line.subrange(0, 7)[d.len() as int] == line[d.len() as int]);
            assert(line[d.len() as int] == ' ');
            assert(line[d.len() as int] == "SHA256:"@[d.len() as int]);
            assert(false);
        }
    }
    if crate::strutil::spec_starts_with(line, "MD5Sum:"@) {
        if d.len() >= 7 {
            assert forall|k: int| 0 <= k < 7 implies d[k] == "MD5Sum:"@[k] by {
                assert(line.subrange(0, 7)[k] == line[k]);
                assert(line[k] == d[k]);
            }
            assert(d.subrange(0, 7) =~= "MD5Sum:"@);
            assert(crate::strutil::spec_starts_with(d, "MD5Sum:"@));
            assert(false);
        } else {
            assert(line.subrange(0, 7)[d.len() as int] == line[d.len() as int]);
            assert(line[d.len() as int] == ' ');
            assert(line[d.len() as int] == "MD5Sum:"@[d.len() as int]);
            assert(false);
        }
    }
    if crate::strutil::spec_starts_with(line, "SHA1:"@) {
        if d.len() >= 5 {
            assert forall|k: int| 0 <= k < 5 implies d[k] == "SHA1:"@[k] by {
                assert(line.subrange(0, 5)[k] == line[k]);
                assert(line[k] == d[k]);
            }
            assert(d.subrange(0, 5) =~= "SHA1:"@);
            assert(crate::strutil::spec_starts_with(d, "SHA1:"@));
            assert(false);
        } else {
            assert(line.subrange(0, 5)[d.len() as int] == line[d.len() as int]);
            assert(line[d.len() as int] == ' ');
            assert(line[d.len() as int] == "SHA1:"@[d.len() as int]);
            assert(false);
        }
    }
}

/// The raw newline split of a formatted line list: the line bodies, then
/// one empty piece.
proof fn lemma_split_fmt_lines(entries: Seq<(Seq<char>, u64, Seq<char>)>)
    requires
        forall|i: int|
            0 <= i < entries.len() ==> spec_wf_checksum_entry(#[trigger] entries[i]),
    ensures
        spec_split(spec_format_lines(entries), '\n') == entries.map_values(
            |e: (Seq<char>, u64, Seq<char>)| spec_line_body(e),
        ) + seq![Seq::<char>::empty()],
    decreases entries.len(),
{
    reveal_strlit("\n");
    if entries.len() == 0 {
        assert(spec_format_lines(entries).len() == 0);
        assert(spec_split(spec_format_lines(entries), '\n') =~~= entries.map_values(
            |e: (Seq<char>, u64, Seq<char>)| spec_line_body(e),
        ) + seq![Seq::<char>::empty()]);
    } else {
        let e = entries.first();
        assert(spec_wf_checksum_entry(e));
        lemma_line_not_marker(e);
        lemma_split_fmt_lines(entries.drop_first());
        assert(spec_checksum_line(e) =~= spec_line_body(e) + seq!['\n']);
        assert(spec_format_lines(entries) =~= spec_line_body(e) + seq!['\n']
            + spec_format_lines(entries.drop_first()));
        lemma_split_line_off(spec_line_body(e), spec_format_lines(entries.drop_first()));
        assert(entries.map_values(|x: (Seq<char>, u64, Seq<char>)| spec_line_body(x))
            =~= seq![spec_line_body(e)] + entries.drop_first().map_values(
            |x: (Seq<char>, u64, Seq<char>)| spec_line_body(x),
        ));
        assert(spec_split(spec_format_lines(entries), '\n') =~~= entries.map_values(
            |x: (Seq<char>, u64, Seq<char>)| spec_line_body(x),
        ) + seq![Seq::<char>::empty()]);
    }
}

/// The lines of a formatted section: the marker, then the line bodies.
proof fn lemma_lines_of_format(entries: Seq<(Seq<char>, u64, Seq<char>)>)
    requires
        forall|i: int|
            0 <= i < entries.len() ==> spec_wf_checksum_entry(#[trigger] entries[i]),
    ensures
        spec_lines(spec_format_checksums(entries)) == seq!["SHA256:"@] + entries.map_values(
            |e: (Seq<char>, u64, Seq<char>)| spec_line_body(e),
        ),
{
    reveal_strlit("SHA256:\n");
    reveal_strlit("SHA256:");
    let text = spec_format_checksums(entries);
    assert("SHA256:\n"@ =~= "SHA256:"@ + seq!['\n']);
    assert(text =~= "SHA256:"@ + seq!['\n'] + spec_format_lines(entries));
    assert forall|k: int| 0 <= k < "SHA256:"@.len() implies #[trigger] "SHA256:"@[k] != '\n'
        by {}
    lemma_split_line_off("SHA256:"@, spec_format_lines(entries));
    lemma_split_fmt_lines(entries);
    let bodies = entries.map_values(|e: (Seq<char>, u64, Seq<char>)| spec_line_body(e));
    let raw = spec_split(text, '\n');
    assert(raw =~= seq!["SHA256:"@] + bodies + seq![Seq::<char>::empty()]);
    assert(raw.len() > 0 && raw.last().len() == 0);
    let cut = raw.drop_last();
    assert(cut =~= seq!["SHA256:"@] + bodies);
    assert forall|k: int| 0 <= k < cut.len() implies #[trigger] spec_strip_cr(cut[k])
        == cut[k] by {
        if k == 0 {
            assert(cut[0].last() == ':');
        } else {
            lemma_line_not_marker(entries[k - 1]);
            assert(cut[k] == spec_line_body(entries[k - 1]));
            assert(cut[k].last() != '\r');
            assert(cut[k].len() > 0);
        }
    }
    assert(spec_lines(text) =~~= seq!["SHA256:"@] + bodies);
}

/// Law: parsing a formatted checksum table gives back exactly its
/// entries' filename-digest pairs, in order.
pub proof fn lemma_checksum_round_trip(entries: Seq<(Seq<char>, u64, Seq<char>)>)
    requires
        forall|i: int|
            0 <= i < entries.len() ==> spec_wf_checksum_entry(#[trigger] entries[i]),
    ensures
        spec_parse_release_hashes(spec_format_checksums(entries)) == entries.map_values(
            |e: (Seq<char>, u64, Seq<char>)| (e.0, e.2),
        ),
{
    lemma_lines_of_format(entries);
    lemma_scan_of_lines(entries);
    assert(spec_parse_release_hashes(spec_format_checksums(entries)) =~~= entries.map_values(
        |e: (Seq<char>, u64, Seq<char>)| (e.0, e.2),
    ));
}

/// Scanning the marker line and the bodies gathers the pairs in order.
proof fn lemma_scan_of_lines(entries: Seq<(Seq<char>, u64, Seq<char>)>)
    requires
        forall|i: int|
            0 <= i < entries.len() ==> spec_wf_checksum_entry(#[trigger] entries[i]),
    ensures
        spec_hash_scan(
            seq!["SHA256:"@] + entries.map_values(
                |e: (Seq<char>, u64, Seq<char>)| spec_line_body(e),
            ),
        ).0 == entries.map_values(|e: (Seq<char>, u64, Seq<char>)| (e.0, e.2)),
        spec_hash_scan(
            seq!["SHA256:"@] + entries.map_values(
                |e: (Seq<char>, u64, Seq<char>)| spec_line_body(e),
            ),
        ).1,
    decreases entries.len(),
{
    reveal_strlit("SHA256:");
    let bodies = entries.map_values(|e: (Seq<char>, u64, Seq<char>)| spec_line_body(e));
    let all = seq!["SHA256:"@] + bodies;
    if entries.len() == 0 {
        reveal_with_fuel(spec_hash_scan, 3);
        assert(all =~= seq!["SHA256:"@]);
        assert(all.drop_last() =~= Seq::<Seq<char>>::empty());
        assert(all.last() == "SHA256:"@);
        assert(crate::strutil::spec_starts_with("SHA256:"@, "SHA256:"@)) by {
            assert("SHA256:"@.subrange(0, 7) =~= "SHA256:"@);
        }
        assert(spec_hash_scan(all).0 =~= entries.map_values(
            |e: (Seq<char>, u64, Seq<char>)| (e.0, e.2),
        ));
        assert(spec_hash_scan(all).1);
    } else {
        let e = entries.last();
        lemma_scan_of_lines(entries.drop_last());
        let prev_bodies = entries.drop_last().map_values(
            |x: (Seq<char>, u64, Seq<char>)| spec_line_body(x),
        );
        assert(all.drop_last() =~= seq!["SHA256:"@] + prev_bodies);
        assert(all.last() == spec_line_body(e));
        lemma_line_not_marker(e);
        lemma_line_tokens(e);
        let line = spec_line_body(e);
        assert(line.len() > 0);
        assert(spec_split_ws(line).len() == 3);
        assert(spec_split_ws(line)[2] == e.0);
        assert(spec_split_ws(line)[0] == e.2);
        let prev_pairs = entries.drop_last().map_values(
            |x: (Seq<char>, u64, Seq<char>)| (x.0, x.2),
        );
        assert(spec_hash_scan(all).0 =~= prev_pairs.push((e.0, e.2)));
        assert(spec_hash_scan(all).1);
        assert(entries.map_values(|x: (Seq<char>, u64, Seq<char>)| (x.0, x.2))
            =~= prev_pairs.push((e.0, e.2)));
    }
}

} // verus!
