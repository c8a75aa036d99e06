//! The signature verifier's data model and the parsing of the external
//! verifier's textual output.  Running the verifier itself is process
//! work that stays outside the library; its captured output is handed in
//! and decoded here.

use vstd::prelude::*;
use vstd::string::*;
use crate::strutil::{lines, spec_lines, split_char, spec_split, split_ws, spec_split_ws, contains_str, spec_contains, starts_with, spec_starts_with, trim_end_char, spec_trim_end_char};

verus! {

/// One public key of the keyring.
#[derive(Debug, Clone)]
pub struct GpgKeyInfo {
    pub key_id: String,
    pub user_id: String,
    pub creation_date: String,
    pub expiration_date: Option<String>,
    pub fingerprint: String,
    pub trust_level: String,
}

/// What a signature verification decided.
#[derive(Debug, Clone)]
pub struct GpgVerificationResult {
    pub valid: bool,
    pub key_id: Option<String>,
    pub signature_date: String,
    pub trust_level: String,
    pub error_message: Option<String>,
}

/// A summary of the keyring.
#[derive(Debug, Clone)]
pub struct KeyringInfo {
    pub total_keys: usize,
    pub trusted_keys: usize,
    pub ultimate_keys: usize,
    pub keyring_path: String,
}

/// The key id a verifier transcript names: on the first line holding
/// `using RSA key`, the third whitespace token with trailing commas
/// removed.
pub open spec fn spec_key_id_of(lines: Seq<Seq<char>>) -> Option<Seq<char>>
    decreases lines.len(),
{
    if lines.len() == 0 {
        None
    } else {
        let prev = spec_key_id_of(lines.drop_last());
        let line = lines.last();
        if spec_contains(line, "using RSA key"@) && spec_split_ws(line).len() >= 3 {
            Some(spec_trim_end_char(spec_split_ws(line)[2], ','))
        } else {
            prev
        }
    }
}

/// Whether a key record carries exactly the fields of a colon-split
/// `pub:` line: trust, key id, creation date, optional expiration,
/// user id, and the twelfth field as fingerprint where present.
pub open spec fn spec_key_fields_match(info: GpgKeyInfo, parts: Seq<Seq<char>>) -> bool {
    parts.len() >= 10 && info.key_id@ == parts[4] && info.user_id@ == parts[9]
        && info.creation_date@ == parts[5] && (match info.expiration_date {
        None => parts[6].len() == 0,
        Some(e) => parts[6].len() > 0 && e@ == parts[6],
    }) && info.fingerprint@ == (if parts.len() >= 12 {
        parts[11]
    } else {
        Seq::<char>::empty()
    }) && info.trust_level@ == parts[1]
}

/// The field lists of the acceptable `pub:` lines of a listing, in
/// order: each starts with `pub:` and splits into at least ten fields.
pub open spec fn spec_key_scan(lines: Seq<Seq<char>>) -> Seq<Seq<Seq<char>>>
    decreases lines.len(),
{
    if lines.len() == 0 {
        Seq::<Seq<Seq<char>>>::empty()
    } else {
        let prev = spec_key_scan(lines.drop_last());
        let line = lines.last();
        if spec_starts_with(line, "pub:"@) && spec_split(line, ':').len() >= 10 {
            prev.push(spec_split(line, ':'))
        } else {
            prev
        }
    }
}

/// How many lines of a listing start with `pub:`, and how many of those
/// also hold `u:` somewhere.
pub open spec fn spec_pub_counts(lines: Seq<Seq<char>>) -> (int, int)
    decreases lines.len(),
{
    if lines.len() == 0 {
        (0int, 0int)
    } else {
        let prev = spec_pub_counts(lines.drop_last());
        let line = lines.last();
        if spec_starts_with(line, "pub:"@) {
            (
                prev.0 + 1,
                prev.1 + if spec_contains(line, "u:"@) {
                    1int
                } else {
                    0int
                },
            )
        } else {
            prev
        }
    }
}

/// The verifier against a keyring path.
pub struct GpgVerifier {
    pub keyring_path: String,
}

impl GpgVerifier {
    /// A verifier for the given keyring.
    pub fn new(keyring_path: &str) -> (r: GpgVerifier)
        ensures
            r.keyring_path@ == keyring_path@,
    {
        GpgVerifier { keyring_path: keyring_path.to_owned() }
    }

    /// Decode a verifier run: on success the transcript's key id is
    /// extracted; on failure the captured error text, or a stock message
    /// when it is empty, explains the outcome.
    #[verifier::loop_isolation(false)]
    pub fn parse_gpg_output(&self, success: bool, stdout_text: &str, stderr_text: &str) -> (r:
        GpgVerificationResult)
        ensures
            r.valid == success,
            success ==> r.key_id.deep_view() == spec_key_id_of(spec_lines(stdout_text@))
                && r.trust_level@ == "ultimate"@ && r.error_message is None,
            !success ==> r.key_id is None && r.trust_level@ == "unknown"@ && r.error_message
                is Some && r.error_message->0@ == (if stderr_text@.len() == 0 {
                "GPG verification failed"@
            } else {
                stderr_text@
            }),
            r.signature_date@ == Seq::<char>::empty(),
    {
        proof {
            reveal_strlit("using RSA key");
            reveal_strlit("ultimate");
            reveal_strlit("unknown");
            reveal_strlit("GPG verification failed");
        }
        if success {
            let out_lines = lines(stdout_text);
            let ghost glines = spec_lines(stdout_text@);
            let mut key_id: Option<String> = None;
            let n = out_lines.len();
            let mut i: usize = 0;
            while i < n
                invariant
                    i <= n,
                    key_id.deep_view() == spec_key_id_of(glines.take(i as int)),
                decreases n - i,
            {
                let line = out_lines[i].as_str();
                proof {
                    assert(line@ == glines[i as int]);
                    assert(glines.take(i + 1).drop_last() =~= glines.take(i as int));
                    assert(glines.take(i + 1).last() == glines[i as int]);
                }
                if contains_str(line, "using RSA key") {
                    let toks = split_ws(line);
                    if toks.len() >= 3 {
                        proof {
                            assert(toks.deep_view()[2] == spec_split_ws(line@)[2]);
                        }
                        key_id = Some(trim_end_char(toks[2].as_str(), ','));
                    }
                }
                i = i + 1;
            }
            proof {
                assert(glines.take(n as int) =~= glines);
            }
            GpgVerificationResult {
                valid: true,
                key_id,
                signature_date: String::new(),
                trust_level: String::from_str("ultimate"),
                error_message: None,
            }
        } else {
            let error_msg = if stderr_text.unicode_len() == 0 {
                String::from_str("GPG verification failed")
            } else {
                stderr_text.to_owned()
            };
            GpgVerificationResult {
                valid: false,
                key_id: None,
                signature_date: String::new(),
                trust_level: String::from_str("unknown"),
                error_message: Some(error_msg),
            }
        }
    }

    /// Decode one `pub:` line of a colon-separated key listing.
    pub fn parse_key_line(&self, line: &str) -> (r: Option<GpgKeyInfo>)
        ensures
            ({
                let parts = spec_split(line@, ':');
                match r {
                    None => parts.len() < 10,
                    Some(info) => spec_key_fields_match(info, parts),
                }
            }),
    {
        let parts = split_char(line, ':');
        if parts.len() < 10 {
            return None;
        }
        proof {
            assert(parts.deep_view()[1] == spec_split(line@, ':')[1]);
            assert(parts.deep_view()[4] == spec_split(line@, ':')[4]);
            assert(parts.deep_view()[5] == spec_split(line@, ':')[5]);
            assert(parts.deep_view()[6] == spec_split(line@, ':')[6]);
            assert(parts.deep_view()[9] == spec_split(line@, ':')[9]);
        }
        let expiration = if parts[6].as_str().unicode_len() == 0 {
            None
        } else {
            Some(parts[6].clone())
        };
        let fingerprint = if parts.len() >= 12 {
            proof {
                assert(parts.deep_view()[11] == spec_split(line@, ':')[11]);
            }
            parts[11].clone()
        } else {
            String::new()
        };
        Some(
            GpgKeyInfo {
                key_id: parts[4].clone(),
                user_id: parts[9].clone(),
                creation_date: parts[5].clone(),
                expiration_date: expiration,
                fingerprint,
                trust_level: parts[1].clone(),
            },
        )
    }

    /// Decode a whole key listing: one key for each `pub:` line that
    /// holds enough fields, carrying exactly that line's fields.
    #[verifier::loop_isolation(false)]
    pub fn parse_key_list(&self, listing: &str) -> (r: Vec<GpgKeyInfo>)
        ensures
            ({
                let scan = spec_key_scan(spec_lines(listing@));
                r@.len() == scan.len() && forall|a: int|
                    0 <= a < scan.len() ==> spec_key_fields_match(#[trigger] r@[a], scan[a])
            }),
    {
        let all_lines = lines(listing);
        let ghost glines = spec_lines(listing@);
        let mut keys: Vec<GpgKeyInfo> = Vec::new();
        let n = all_lines.len();
        let mut i: usize = 0;
        proof {
            reveal_strlit("pub:");
        }
        while i < n
            invariant
                i <= n,
                ({
                    let scan = spec_key_scan(glines.take(i as int));
                    keys@.len() == scan.len() && forall|a: int|
                        0 <= a < scan.len() ==> spec_key_fields_match(
                            #[trigger] keys@[a],
                            scan[a],
                        )
                }),
            decreases n - i,
        {
            let line = all_lines[i].as_str();
            proof {
                assert(line@ == glines[i as int]);
                assert(glines.take(i + 1).drop_last() =~= glines.take(i as int));
                assert(glines.take(i + 1).last() == glines[i as int]);
            }
            if starts_with(line, "pub:") {
                match self.parse_key_line(line) {
                    Some(info) => keys.push(info),
                    None => (),
                }
            }
            i = i + 1;
        }
        proof {
            assert(glines.take(n as int) =~= glines);
        }
        keys
    }

    /// Count the keys of a listing: every `pub:` line, and among them
    /// those holding a `u:` trust mark.
    #[verifier::loop_isolation(false)]
    pub fn parse_keyring_info(&self, listing: &str) -> (r: KeyringInfo)
        ensures
            r.keyring_path@ == self.keyring_path@,
            r.total_keys == spec_pub_counts(spec_lines(listing@)).0,
            r.trusted_keys == spec_pub_counts(spec_lines(listing@)).1,
            r.ultimate_keys == r.trusted_keys,
    {
        proof {
            reveal_strlit("pub:");
            reveal_strlit("u:");
        }
        let all_lines = lines(listing);
        let ghost glines = spec_lines(listing@);
        let mut key_count: usize = 0;
        let mut trusted: usize = 0;
        let n = all_lines.len();
        let mut i: usize = 0;
        while i < n
            invariant
                i <= n,
                key_count <= i,
                trusted <= key_count,
                key_count == spec_pub_counts(glines.take(i as int)).0,
                trusted == spec_pub_counts(glines.take(i as int)).1,
            decreases n - i,
        {
            let line = all_lines[i].as_str();
            proof {
                assert(line@ == glines[i as int]);
                assert(glines.take(i + 1).drop_last() =~= glines.take(i as int));
                assert(glines.take(i + 1).last() == glines[i as int]);
            }
            if starts_with(line, "pub:") {
                key_count = key_count + 1;
                if contains_str(line, "u:") {
                    trusted = trusted + 1;
                }
            }
            i = i + 1;
        }
        proof {
            assert(glines.take(n as int) =~= glines);
        }
        KeyringInfo {
            total_keys: key_count,
            trusted_keys: trusted,
            ultimate_keys: trusted,
            keyring_path: self.keyring_path.clone(),
        }
    }
}

} // verus!
