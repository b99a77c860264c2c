//! Boundary validation: bucket names, object keys, session ids, control-key
//! names, server names. Each check is total, stated exactly, and reports the
//! same message for the same input every time.

use vstd::prelude::*;
use vstd::string::StringExecFns;
use vstd::string::StringSliceAdditionalSpecFns;
use vstd::string::StrSliceExecFns;

use crate::strutil::ascii_lower;
use crate::strutil::push_char;
use crate::strutil::spec_ascii_lower;
use crate::strutil::spec_contains_seq;
use crate::strutil::spec_is_whitespace;
use crate::strutil::spec_trim;
use crate::strutil::str_contains;
use crate::strutil::str_eq;
use crate::strutil::trim_str;

verus! {

/// What remains after every leading occurrence of one character is dropped.
pub open spec fn spec_drop_leading(s: Seq<char>, c: char) -> Seq<char>
    decreases s.len(),
{
    if s.len() > 0 && s[0] == c {
        spec_drop_leading(s.drop_first(), c)
    } else {
        s
    }
}

proof fn lemma_drop_leading_skip(s: Seq<char>, c: char, i: int)
    requires
        0 <= i <= s.len(),
        forall|k: int| 0 <= k < i ==> s[k] == c,
    ensures
        spec_drop_leading(s, c) == spec_drop_leading(s.skip(i), c),
    decreases i,
{
    if i > 0 {
        assert(s.drop_first() =~= s.skip(1));
        lemma_drop_leading_skip(s.skip(1), c, i - 1);
        assert(s.skip(1).skip(i - 1) =~= s.skip(i));
    } else {
        assert(s.skip(0) =~= s);
    }
}

/// Normalizes an object key: trims it, drops leading `/`, and requires what
/// remains to be non-empty.
pub fn normalize_obs_object_key(input: &str) -> (r: Result<String, String>)
    ensures
        ({
            let key = spec_drop_leading(spec_trim(input@), '/');
            if key.len() == 0 {
                r matches Err(e) && e@ == "OBS object key is required."@
            } else {
                r matches Ok(k) && k@ == key
            }
        }),
{
    let trimmed = trim_str(input);
    let n = trimmed.unicode_len();
    let mut i: usize = 0;
    while i < n && trimmed.get_char(i) == '/'
        invariant
            0 <= i <= n,
            n == trimmed@.len(),
            forall|k: int| 0 <= k < i ==> trimmed@[k] == '/',
        decreases n - i,
    {
        i = i + 1;
    }
    proof {
        lemma_drop_leading_skip(trimmed@, '/', i as int);
        if i < n {
            assert(trimmed@.skip(i as int)[0] == trimmed@[i as int]);
        }
        assert(spec_drop_leading(trimmed@, '/') == trimmed@.skip(i as int));
    }
    let key = trimmed.substring_char(i, n);
    proof {
        assert(key@ =~= trimmed@.skip(i as int));
    }
    if key.is_empty() {
        return Err("OBS object key is required.".to_owned());
    }
    Ok(key.to_owned())
}

/// Normalizes a session id: trims it and requires it non-empty.
pub fn normalize_ssh_session_id(input: &str) -> (r: Result<String, String>)
    ensures
        spec_trim(input@).len() == 0 ==> (r matches Err(e) && e@ == "SSH session ID is required."@),
        spec_trim(input@).len() > 0 ==> (r matches Ok(id) && id@ == spec_trim(input@)),
{
    let session_id = trim_str(input);
    if session_id.is_empty() {
        return Err("SSH session ID is required.".to_owned());
    }
    Ok(session_id.to_owned())
}

/// Requires a non-blank host; the host is trimmed.
pub fn require_ssh_host(input: &str) -> (r: Result<String, String>)
    ensures
        spec_trim(input@).len() == 0 ==> (r matches Err(e) && e@ == "SSH host is required."@),
        spec_trim(input@).len() > 0 ==> (r matches Ok(h) && h@ == spec_trim(input@)),
{
    let host = trim_str(input);
    if host.is_empty() {
        return Err("SSH host is required.".to_owned());
    }
    Ok(host.to_owned())
}

/// Requires a non-blank password; the password is trimmed.
pub fn require_ssh_password(input: &str) -> (r: Result<String, String>)
    ensures
        spec_trim(input@).len() == 0 ==> (r matches Err(e) && e@ == "SSH password is required."@),
        spec_trim(input@).len() > 0 ==> (r matches Ok(p) && p@ == spec_trim(input@)),
{
    let password = trim_str(input);
    if password.is_empty() {
        return Err("SSH password is required.".to_owned());
    }
    Ok(password.to_owned())
}

/// Requires a non-blank command; the command is trimmed.
pub fn require_ssh_command(input: &str) -> (r: Result<String, String>)
    ensures
        spec_trim(input@).len() == 0 ==> (r matches Err(e) && e@ == "SSH command is required."@),
        spec_trim(input@).len() > 0 ==> (r matches Ok(c) && c@ == spec_trim(input@)),
{
    let command = trim_str(input);
    if command.is_empty() {
        return Err("SSH command is required.".to_owned());
    }
    Ok(command.to_owned())
}

/// The effective port of a connection request: 22 unless one was given.
pub fn effective_ssh_port(port: Option<u16>) -> (r: u16)
    ensures
        port matches Some(p) ==> r == p,
        port is None ==> r == 22,
{
    match port {
        Some(p) => p,
        None => 22,
    }
}

/// The effective user of a connection request: `root` unless a non-blank
/// name was given; the name is trimmed.
pub fn effective_ssh_username(username: Option<&str>) -> (r: String)
    ensures
        ({
            let given = match username {
                None => Seq::<char>::empty(),
                Some(u) => spec_trim(u@),
            };
            if given.len() == 0 {
                r@ == "root"@
            } else {
                r@ == given
            }
        }),
{
    match username {
        Some(u) => {
            let trimmed = trim_str(u);
            if trimmed.is_empty() {
                "root".to_owned()
            } else {
                trimmed.to_owned()
            }
        },
        None => "root".to_owned(),
    }
}

/// A caller-supplied optional field, trimmed, with blanks falling back to a
/// default.
pub fn trimmed_or_default(value: Option<&str>, default: &str) -> (r: String)
    ensures
        ({
            let given = match value {
                None => Seq::<char>::empty(),
                Some(v) => spec_trim(v@),
            };
            if given.len() == 0 {
                r@ == default@
            } else {
                r@ == given
            }
        }),
{
    match value {
        Some(v) => {
            let trimmed = trim_str(v);
            if trimmed.is_empty() {
                default.to_owned()
            } else {
                trimmed.to_owned()
            }
        },
        None => default.to_owned(),
    }
}

/// A caller-supplied optional field, trimmed, with blanks dropped.
pub fn trimmed_nonempty(value: Option<&str>) -> (r: Option<String>)
    ensures
        ({
            let given = match value {
                None => Seq::<char>::empty(),
                Some(v) => spec_trim(v@),
            };
            if given.len() == 0 {
                r is None
            } else {
                r matches Some(out) && out@ == given
            }
        }),
{
    match value {
        Some(v) => {
            let trimmed = trim_str(v);
            if trimmed.is_empty() {
                None
            } else {
                Some(trimmed.to_owned())
            }
        },
        None => None,
    }
}

/// Validates one requested data disk: a non-blank type, a positive size, and
/// a count of at least one (defaulting to one).
pub fn validate_data_volume(
    volume_type: &str,
    size: u32,
    count: Option<u32>,
    multiattach: Option<bool>,
    hw_passthrough: Option<bool>,
) -> (r: Result<crate::models::ecs::DataVolume, String>)
    ensures
        ({
            let t = spec_trim(volume_type@);
            let c = match count {
                Some(c) => c,
                None => 1u32,
            };
            if t.len() == 0 {
                r matches Err(e) && e@ == "Data disk volume type is required."@
            } else if size == 0 {
                r matches Err(e) && e@ == "Data disk size must be greater than 0 GB."@
            } else if c == 0 {
                r matches Err(e) && e@ == "Data disk count must be at least 1."@
            } else {
                r matches Ok(v) && v.volumetype@ == t && v.size == size && v.count == Some(c)
                    && v.multiattach == multiattach && v.hw_passthrough == hw_passthrough
            }
        }),
{
    let trimmed = trim_str(volume_type);
    if trimmed.is_empty() {
        return Err("Data disk volume type is required.".to_owned());
    }
    if size == 0 {
        return Err("Data disk size must be greater than 0 GB.".to_owned());
    }
    let c = match count {
        Some(c) => c,
        None => 1,
    };
    if c == 0 {
        return Err("Data disk count must be at least 1.".to_owned());
    }
    Ok(
        crate::models::ecs::DataVolume {
            volumetype: trimmed.to_owned(),
            size,
            count: Some(c),
            multiattach,
            hw_passthrough,
        },
    )
}

/// The control byte a control-key name resolves to: `c`/`ctrl+c`, `d`/
/// `ctrl+d` and `u`/`ctrl+u` map to 0x03, 0x04 and 0x15, case-insensitively
/// and whitespace-trimmed; everything else resolves to nothing.
pub open spec fn spec_control_byte(input: Seq<char>) -> Option<u8> {
    let t = spec_ascii_lower(spec_trim(input));
    if t == "c"@ || t == "ctrl+c"@ {
        Some(3u8)
    } else if t == "d"@ || t == "ctrl+d"@ {
        Some(4u8)
    } else if t == "u"@ || t == "ctrl+u"@ {
        Some(21u8)
    } else {
        None
    }
}

/// The error for an unsupported control-key name.
pub open spec fn spec_unsupported_control_error(input: Seq<char>) -> Seq<char> {
    "Unsupported control sequence '"@ + spec_trim(input) + "'. Use Ctrl+C, Ctrl+D, or Ctrl+U."@
}

/// Resolves a control-key name to the byte to write, or fails naming the
/// supported shortcuts.
pub fn control_char_from_input(input: &str) -> (r: Result<u8, String>)
    ensures
        spec_control_byte(input@) matches Some(b) ==> (r matches Ok(rb) && rb == b),
        spec_control_byte(input@) is None ==> (r matches Err(e) && e@
            == spec_unsupported_control_error(input@)),
{
    let trimmed = trim_str(input);
    let normalized = ascii_lower(trimmed);
    let t = normalized.as_str();
    if str_eq(t, "c") || str_eq(t, "ctrl+c") {
        Ok(3)
    } else if str_eq(t, "d") || str_eq(t, "ctrl+d") {
        Ok(4)
    } else if str_eq(t, "u") || str_eq(t, "ctrl+u") {
        Ok(21)
    } else {
        let mut msg = String::new();
        msg.append("Unsupported control sequence '");
        msg.append(trimmed);
        msg.append("'. Use Ctrl+C, Ctrl+D, or Ctrl+U.");
        proof {
            assert(msg@ =~= spec_unsupported_control_error(input@));
        }
        Err(msg)
    }
}

/// Splitting a character sequence on a separator; the result always holds at
/// least one part.
pub open spec fn spec_split_chars(s: Seq<char>, sep: char) -> Seq<Seq<char>>
    decreases s.len(),
{
    if s.len() == 0 {
        seq![Seq::<char>::empty()]
    } else if s[0] == sep {
        seq![Seq::<char>::empty()] + spec_split_chars(s.drop_first(), sep)
    } else {
        let rest = spec_split_chars(s.drop_first(), sep);
        seq![seq![s[0]] + rest[0]] + rest.drop_first()
    }
}

proof fn lemma_split_chars_len(s: Seq<char>, sep: char)
    ensures
        spec_split_chars(s, sep).len() >= 1,
    decreases s.len(),
{
    if s.len() > 0 {
        lemma_split_chars_len(s.drop_first(), sep);
    }
}

proof fn lemma_split_chars_no_sep(u: Seq<char>, sep: char)
    requires
        forall|i: int| 0 <= i < u.len() ==> u[i] != sep,
    ensures
        spec_split_chars(u, sep) == seq![u],
    decreases u.len(),
{
    if u.len() == 0 {
        assert(u =~= Seq::<char>::empty());
        assert(spec_split_chars(u, sep) =~= seq![u]);
    } else {
        lemma_split_chars_no_sep(u.drop_first(), sep);
        let rest = spec_split_chars(u.drop_first(), sep);
        assert(rest[0] == u.drop_first());
        assert(rest.drop_first() =~= Seq::<Seq<char>>::empty());
        assert(seq![u[0]] + u.drop_first() =~= u);
        assert(spec_split_chars(u, sep) =~= seq![seq![u[0]] + rest[0]] + rest.drop_first());
        assert(spec_split_chars(u, sep) =~= seq![u]);
    }
}

proof fn lemma_split_chars_step(u: Seq<char>, rest: Seq<char>, sep: char)
    requires
        forall|i: int| 0 <= i < u.len() ==> u[i] != sep,
    ensures
        spec_split_chars(u + seq![sep] + rest, sep) == seq![u] + spec_split_chars(rest, sep),
    decreases u.len(),
{
    lemma_split_chars_len(rest, sep);
    if u.len() == 0 {
        let s = u + seq![sep] + rest;
        assert(s[0] == sep);
        assert(s.drop_first() =~= rest);
        assert(u =~= Seq::<char>::empty());
        assert(spec_split_chars(s, sep) =~= seq![u] + spec_split_chars(rest, sep));
    } else {
        let s = u + seq![sep] + rest;
        assert(s[0] == u[0]);
        assert(s[0] != sep);
        assert(s.drop_first() =~= u.drop_first() + seq![sep] + rest);
        lemma_split_chars_step(u.drop_first(), rest, sep);
        let inner = spec_split_chars(s.drop_first(), sep);
        assert(inner == seq![u.drop_first()] + spec_split_chars(rest, sep));
        assert(inner[0] == u.drop_first());
        assert(seq![s[0]] + inner[0] =~= u);
        assert(inner.drop_first() =~= spec_split_chars(rest, sep));
        assert(spec_split_chars(s, sep) =~= seq![seq![s[0]] + inner[0]] + inner.drop_first());
        assert(spec_split_chars(s, sep) =~= seq![u] + spec_split_chars(rest, sep));
    }
}

fn split_chars(s: &str, sep: char) -> (parts: Vec<String>)
    ensures
        parts@.map_values(|p: String| p@) == spec_split_chars(s@, sep),
{
    let n = s.unicode_len();
    let mut parts: Vec<String> = Vec::new();
    let mut cur = String::new();
    let mut i: usize = 0;
    proof {
        assert(cur@ + s@.skip(0) =~= s@);
        assert(parts@.map_values(|p: String| p@) =~= Seq::<Seq<char>>::empty());
        assert(spec_split_chars(s@, sep) =~= parts@.map_values(|p: String| p@) + spec_split_chars(
            cur@ + s@.skip(0),
            sep,
        ));
    }
    while i < n
        invariant
            0 <= i <= n,
            n == s@.len(),
            forall|k: int| 0 <= k < cur@.len() ==> cur@[k] != sep,
            spec_split_chars(s@, sep) =~= parts@.map_values(|p: String| p@) + spec_split_chars(
                cur@ + s@.skip(i as int),
                sep,
            ),
        decreases n - i,
    {
        let c = s.get_char(i);
        proof {
            assert(cur@ + s@.skip(i as int) =~= cur@ + seq![s@[i as int]] + s@.skip(i + 1));
        }
        if c == sep {
            proof {
                lemma_split_chars_step(cur@, s@.skip(i + 1), sep);
            }
            let ghost old_parts = parts@;
            let ghost old_cur = cur@;
            parts.push(cur);
            cur = String::new();
            proof {
                assert(parts@.map_values(|p: String| p@) =~= old_parts.map_values(
                    |p: String| p@,
                ).push(old_cur));
                assert(cur@ + s@.skip(i + 1) =~= s@.skip(i + 1));
                assert(spec_split_chars(s@, sep) =~= parts@.map_values(|p: String| p@)
                    + spec_split_chars(cur@ + s@.skip(i + 1), sep));
            }
        } else {
            let ghost old_cur = cur@;
            push_char(&mut cur, c);
            proof {
                assert(cur@ + s@.skip(i + 1) =~= old_cur + s@.skip(i as int));
            }
        }
        i = i + 1;
    }
    proof {
        assert(cur@ + s@.skip(n as int) =~= cur@);
        lemma_split_chars_no_sep(cur@, sep);
    }
    let ghost old_parts = parts@;
    let ghost last_cur = cur@;
    parts.push(cur);
    proof {
        assert(parts@.map_values(|p: String| p@) =~= old_parts.map_values(|p: String| p@).push(
            last_cur,
        ));
        assert(parts@.map_values(|p: String| p@) =~= spec_split_chars(s@, sep));
    }
    parts
}

/// Whether a character is an ASCII decimal digit.
pub open spec fn spec_is_digit(c: char) -> bool {
    48 <= c as u32 <= 57
}

/// The value of a digit string read in decimal.
pub open spec fn spec_octet_value(s: Seq<char>) -> int
    decreases s.len(),
{
    if s.len() == 0 {
        0
    } else {
        spec_octet_value(s.drop_last()) * 10 + (s.last() as u32 - 48)
    }
}

proof fn lemma_octet_value_bounds(s: Seq<char>)
    requires
        forall|i: int| 0 <= i < s.len() ==> spec_is_digit(s[i]),
    ensures
        spec_octet_value(s) >= 0,
        s.len() <= 1 ==> spec_octet_value(s) <= 9,
        s.len() <= 2 ==> spec_octet_value(s) <= 99,
        s.len() <= 3 ==> spec_octet_value(s) <= 999,
    decreases s.len(),
{
    if s.len() > 0 {
        assert(forall|i: int| 0 <= i < s.drop_last().len() ==> spec_is_digit(s.drop_last()[i]));
        lemma_octet_value_bounds(s.drop_last());
        assert(spec_is_digit(s.last()));
    }
}

/// Whether a digit string is a valid dotted-quad octet: one to three digits,
/// no leading zero unless it is exactly `0`, and a value of at most 255.
pub open spec fn spec_is_dec_octet(s: Seq<char>) -> bool {
    1 <= s.len() <= 3 && (forall|i: int| 0 <= i < s.len() ==> spec_is_digit(s[i])) && (s.len() > 1
        ==> s[0] != '0') && spec_octet_value(s) <= 255
}

/// Whether a string has the exact shape of a dotted-quad IPv4 address: four
/// valid octets separated by `.`.
pub open spec fn spec_is_ipv4_literal(s: Seq<char>) -> bool {
    let parts = spec_split_chars(s, '.');
    parts.len() == 4 && (forall|k: int| 0 <= k < 4 ==> spec_is_dec_octet(#[trigger] parts[k]))
}

fn is_dec_octet(s: &str) -> (r: bool)
    ensures
        r == spec_is_dec_octet(s@),
{
    let n = s.unicode_len();
    if n < 1 || n > 3 {
        return false;
    }
    let mut i: usize = 0;
    let mut value: u32 = 0;
    proof {
        assert(s@.take(0) =~= Seq::<char>::empty());
    }
    while i < n
        invariant
            0 <= i <= n,
            1 <= n <= 3,
            n == s@.len(),
            forall|k: int| 0 <= k < i ==> spec_is_digit(s@[k]),
            value == spec_octet_value(s@.take(i as int)),
            value <= 999,
        decreases n - i,
    {
        let c = s.get_char(i);
        let code = c as u32;
        if code < 48 || code > 57 {
            return false;
        }
        proof {
            assert(forall|k: int| 0 <= k < s@.take(i as int).len() ==> spec_is_digit(
                #[trigger] s@.take(i as int)[k],
            ));
            lemma_octet_value_bounds(s@.take(i as int));
            assert(s@.take(i + 1).drop_last() =~= s@.take(i as int));
            assert(s@.take(i + 1).last() == s@[i as int]);
        }
        value = value * 10 + (code - 48);
        proof {
            assert(forall|k: int| 0 <= k < s@.take(i + 1).len() ==> spec_is_digit(
                #[trigger] s@.take(i + 1)[k],
            ));
            lemma_octet_value_bounds(s@.take(i + 1));
        }
        i = i + 1;
    }
    proof {
        assert(s@.take(n as int) =~= s@);
    }
    if n > 1 && s.get_char(0) == '0' {
        return false;
    }
    value <= 255
}

/// Whether a string is a dotted-quad IPv4 address, as the bucket-name rules
/// forbid.
pub fn is_ipv4_literal(s: &str) -> (r: bool)
    ensures
        r == spec_is_ipv4_literal(s@),
{
    let parts = split_chars(s, '.');
    let ghost gparts = parts@.map_values(|p: String| p@);
    if parts.len() != 4 {
        return false;
    }
    let mut k: usize = 0;
    while k < 4
        invariant
            0 <= k <= 4,
            parts@.len() == 4,
            gparts == parts@.map_values(|p: String| p@),
            gparts == spec_split_chars(s@, '.'),
            forall|t: int| 0 <= t < k ==> spec_is_dec_octet(#[trigger] gparts[t]),
        decreases 4 - k,
    {
        if !is_dec_octet(parts[k].as_str()) {
            proof {
                assert(gparts[k as int] == parts@[k as int]@);
            }
            return false;
        }
        proof {
            assert(gparts[k as int] == parts@[k as int]@);
        }
        k = k + 1;
    }
    true
}

/// Whether a character may appear in a bucket name: a lower-case ASCII
/// letter, a digit, `.` or `-`.
pub open spec fn spec_is_bucket_char(c: char) -> bool {
    (97 <= c as u32 <= 122) || spec_is_digit(c) || c == '.' || c == '-'
}

/// The normalized bucket name an input denotes: trimmed and ASCII
/// lower-cased.
pub open spec fn spec_normalized_bucket(input: Seq<char>) -> Seq<char> {
    spec_ascii_lower(spec_trim(input))
}

/// Validates and normalizes a bucket name: trimmed and lower-cased, its
/// UTF-8 length must lie in `min_len..=max_len`, it may hold only lower-case
/// letters, digits, `.` and `-`, may not start or end with `.` or `-`, may
/// not hold `..`, and may not be shaped like an IPv4 address. Each rule has
/// its own message, checked in this order.
pub fn normalize_obs_bucket_name(input: &str, min_len: usize, max_len: usize) -> (r: Result<
    String,
    String,
>)
    ensures
        ({
            let bucket = spec_normalized_bucket(input@);
            let blen = vstd::utf8::encode_utf8(bucket).len();
            if blen < min_len || blen > max_len {
                r matches Err(e) && e@ == spec_bucket_length_error(min_len as nat, max_len as nat)
            } else if !(forall|i: int| 0 <= i < bucket.len() ==> spec_is_bucket_char(bucket[i])) {
                r matches Err(e) && e@
                    == "OBS bucket name can contain only lowercase letters, digits, '.' or '-'."@
            } else if bucket.len() > 0 && (bucket[0] == '.' || bucket[bucket.len() - 1] == '.'
                || bucket[0] == '-' || bucket[bucket.len() - 1] == '-') {
                r matches Err(e) && e@ == "OBS bucket name cannot start or end with '.' or '-'."@
            } else if spec_contains_seq(bucket, ".."@) {
                r matches Err(e) && e@ == "OBS bucket name cannot contain consecutive dots."@
            } else if spec_is_ipv4_literal(bucket) {
                r matches Err(e) && e@
                    == "OBS bucket name cannot be formatted as an IPv4 address."@
            } else {
                r matches Ok(b) && b@ == bucket
            }
        }),
{
    let trimmed = trim_str(input);
    let bucket = ascii_lower(trimmed);
    let bucket_bytes = bucket.as_str().as_bytes();
    let blen = bucket_bytes.len();
    proof {
        assert(blen == vstd::utf8::encode_utf8(bucket@).len());
    }
    if blen < min_len || blen > max_len {
        return Err(bucket_length_error(min_len, max_len));
    }
    let n = bucket.as_str().unicode_len();
    proof {
        if n == 0 {
            assert(bucket@ =~= Seq::<char>::empty());
            assert(vstd::utf8::encode_utf8(bucket@) =~= Seq::<u8>::empty());
        }
    }
    let mut i: usize = 0;
    while i < n
        invariant
            0 <= i <= n,
            n == bucket@.len(),
            bucket@ == spec_normalized_bucket(input@),
            min_len <= vstd::utf8::encode_utf8(bucket@).len() <= max_len,
            forall|k: int| 0 <= k < i ==> spec_is_bucket_char(bucket@[k]),
        decreases n - i,
    {
        let c = bucket.as_str().get_char(i);
        let code = c as u32;
        if !((97 <= code && code <= 122) || (48 <= code && code <= 57) || c == '.' || c == '-') {
            return Err(
                "OBS bucket name can contain only lowercase letters, digits, '.' or '-'.".to_owned(),
            );
        }
        i = i + 1;
    }
    if n > 0 {
        let first = bucket.as_str().get_char(0);
        let last = bucket.as_str().get_char(n - 1);
        if first == '.' || last == '.' || first == '-' || last == '-' {
            return Err("OBS bucket name cannot start or end with '.' or '-'.".to_owned());
        }
    }
    if str_contains(bucket.as_str(), "..") {
        return Err("OBS bucket name cannot contain consecutive dots.".to_owned());
    }
    if is_ipv4_literal(bucket.as_str()) {
        return Err("OBS bucket name cannot be formatted as an IPv4 address.".to_owned());
    }
    Ok(bucket)
}

/// The message for a bucket name whose length is out of bounds.
pub open spec fn spec_bucket_length_error(min_len: nat, max_len: nat) -> Seq<char> {
    "OBS bucket name must be "@ + crate::strutil::spec_decimal(min_len) + "-"@
        + crate::strutil::spec_decimal(max_len) + " characters."@
}

fn bucket_length_error(min_len: usize, max_len: usize) -> (r: String)
    ensures
        r@ == spec_bucket_length_error(min_len as nat, max_len as nat),
{
    let mut msg = String::new();
    msg.append("OBS bucket name must be ");
    let lo = crate::strutil::u64_to_decimal(min_len as u64);
    msg.append(lo.as_str());
    msg.append("-");
    let hi = crate::strutil::u64_to_decimal(max_len as u64);
    msg.append(hi.as_str());
    msg.append(" characters.");
    proof {
        assert(msg@ =~= spec_bucket_length_error(min_len as nat, max_len as nat));
    }
    msg
}

/// Whether a requested server name calls for a generated one: it is blank,
/// or it is the generation placeholder.
pub open spec fn spec_needs_generated_name(input: Seq<char>) -> bool {
    spec_trim(input).len() == 0 || input == "ecs-<RANDOM-VALUE>"@
}

/// Relies on rand's thread-local generator and the Alphanumeric
/// distribution: `len` characters drawn at random; random, so only the
/// length is promised.
#[verifier::external_body]
fn random_alnum_suffix(len: usize) -> (r: String)
    ensures
        r@.len() == len,
{
    rand::Rng::sample_iter(rand::rng(), &rand::distr::Alphanumeric).take(len).map(
        char::from,
    ).collect()
}

/// Relies on chrono::Utc::now: a compact date-time for generated names;
/// clock-dependent, so nothing is promised of its value.
#[verifier::external_body]
fn name_timestamp_now() -> String {
    chrono::Utc::now().format("%Y%m%d-%H%M%S").to_string()
}

/// Keeps a caller's server name, unless it is blank or the placeholder, in
/// which case a fresh `ecs-` name is generated from the clock and six random
/// alphanumeric characters.
pub fn normalize_server_name(input: &str) -> (r: String)
    ensures
        !spec_needs_generated_name(input@) ==> r@ == input@,
        spec_needs_generated_name(input@) ==> r@.len() >= 4 && r@.subrange(0, 4) == "ecs-"@,
{
    let trimmed = trim_str(input);
    if trimmed.is_empty() || str_eq(input, "ecs-<RANDOM-VALUE>") {
        let mut name = String::new();
        name.append("ecs-");
        let ts = name_timestamp_now();
        name.append(ts.as_str());
        name.append("-");
        let suffix = random_alnum_suffix(6);
        name.append(suffix.as_str());
        proof {
            reveal_strlit("ecs-");
            assert(name@.subrange(0, 4) =~= "ecs-"@);
        }
        name
    } else {
        input.to_owned()
    }
}

} // verus!
