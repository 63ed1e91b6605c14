//! Archive destinations: `s3://<bucket>/<optional-prefix>/`.

use vstd::prelude::*;
use vstd::std_specs::iter::IteratorSpec;
use vstd::string::{StrSliceExecFns, StringExecFns, StringSliceAdditionalSpecFns};
use vstd::utf8::encode_utf8;

verus! {

/// Whether `c` is an ASCII digit or a lowercase ASCII letter.
pub open spec fn is_alnum(c: u8) -> bool {
    (0x30 <= c <= 0x39) || (0x61 <= c <= 0x7a)
}

/// Whether `c` may occur in a bucket name: a digit, a lowercase letter,
/// `-` or `.`.
pub open spec fn is_bucket_byte(c: u8) -> bool {
    is_alnum(c) || c == 0x2d || c == 0x2e
}

/// Whether every byte of `b` may occur in a bucket name.
pub open spec fn all_bucket_bytes(b: Seq<u8>) -> bool {
    forall|i: int| 0 <= i < b.len() ==> is_bucket_byte(#[trigger] b[i])
}

/// Whether `b` holds two dots in a row.
pub open spec fn has_double_dot(b: Seq<u8>) -> bool {
    exists|i: int| 0 <= i < b.len() - 1 && #[trigger] b[i] == 0x2e && b[i + 1] == 0x2e
}

/// What is wrong with the bytes `b` as a bucket name, in the words handed
/// to the user; `None` where the name is valid. The length is checked
/// first, then the two ends, then every byte, then the dots.
pub open spec fn bucket_fault(b: Seq<u8>) -> Option<Seq<char>> {
    if !(3 <= b.len() <= 63) {
        Some("bucket name must be 3..=63 characters"@)
    } else if !is_alnum(b[0]) || !is_alnum(b.last()) {
        Some("bucket must start and end with a letter or digit"@)
    } else if !all_bucket_bytes(b) {
        Some("bucket may contain only lowercase letters, digits, '.' or '-'"@)
    } else if has_double_dot(b) {
        Some("bucket may not contain consecutive '.' characters"@)
    } else {
        None
    }
}

/// The part of `s` before its first `/`; all of `s` where it has none.
pub open spec fn before_slash(s: Seq<char>) -> Seq<char>
    decreases s.len(),
{
    if s.len() == 0 || s[0] == '/' {
        Seq::empty()
    } else {
        seq![s[0]] + before_slash(s.drop_first())
    }
}

/// The part of `s` after its first `/`; empty where it has none.
pub open spec fn after_slash(s: Seq<char>) -> Seq<char>
    decreases s.len(),
{
    if s.len() == 0 {
        Seq::empty()
    } else if s[0] == '/' {
        s.drop_first()
    } else {
        after_slash(s.drop_first())
    }
}

/// `s` without the slashes it starts with.
pub open spec fn trim_slashes(s: Seq<char>) -> Seq<char>
    decreases s.len(),
{
    if s.len() > 0 && s[0] == '/' {
        trim_slashes(s.drop_first())
    } else {
        s
    }
}

/// The prefix as it is stored: empty, or ending with `/`.
pub open spec fn normalized(p: Seq<char>) -> Seq<char> {
    if p.len() > 0 && p.last() != '/' {
        p.push('/')
    } else {
        p
    }
}

/// Whether `raw` starts with `s3://`.
pub open spec fn has_scheme(raw: Seq<char>) -> bool {
    raw.len() >= 5 && raw.take(5) == "s3://"@
}

/// What `raw` denotes: the bucket and the stored prefix, or the words that
/// say why it is refused.
pub open spec fn parsed(raw: Seq<char>) -> Result<(Seq<char>, Seq<char>), Seq<char>> {
    if !has_scheme(raw) {
        Err("expected URL starting with s3://"@)
    } else {
        let rest = raw.skip(5);
        let bucket = before_slash(rest);
        match bucket_fault(encode_utf8(bucket)) {
            Some(words) => Err(words),
            None => Ok((bucket, normalized(trim_slashes(after_slash(rest))))),
        }
    }
}

/// Where the first `/` of `s` is known to stand at `cut` (or to be missing,
/// with `cut` the length), the two parts are the ranges around `cut`.
proof fn lemma_cut(s: Seq<char>, cut: int)
    requires
        0 <= cut <= s.len(),
        forall|i: int| 0 <= i < cut ==> s[i] != '/',
        cut < s.len() ==> s[cut] == '/',
    ensures
        before_slash(s) == s.take(cut),
        after_slash(s) == if cut < s.len() {
            s.skip(cut + 1)
        } else {
            Seq::empty()
        },
    decreases cut,
{
    if cut == 0 {
        assert(s.take(0) =~= Seq::<char>::empty());
        if s.len() > 0 {
            assert(s.drop_first() =~= s.skip(1));
        }
    } else {
        let t = s.drop_first();
        assert forall|i: int| 0 <= i < cut - 1 implies t[i] != '/' by {
            assert(t[i] == s[i + 1]);
        }
        lemma_cut(t, cut - 1);
        assert(seq![s[0]] + t.take(cut - 1) =~= s.take(cut));
        if cut < s.len() {
            assert(t.skip(cut) =~= s.skip(cut + 1));
        }
    }
}

/// Where `s` starts with `k` slashes and no more, trimming drops those.
proof fn lemma_trim(s: Seq<char>, k: int)
    requires
        0 <= k <= s.len(),
        forall|i: int| 0 <= i < k ==> s[i] == '/',
        k < s.len() ==> s[k] != '/',
    ensures
        trim_slashes(s) == s.skip(k),
    decreases k,
{
    if k == 0 {
        assert(s.skip(0) =~= s);
    } else {
        let t = s.drop_first();
        assert forall|i: int| 0 <= i < k - 1 implies t[i] == '/' by {
            assert(t[i] == s[i + 1]);
        }
        lemma_trim(t, k - 1);
        assert(t.skip(k - 1) =~= s.skip(k));
    }
}

/// The characters of `s`, one by one.
fn chars_of(s: &str) -> (out: Vec<char>)
    ensures
        out@ == s@,
{
    let mut it = s.chars();
    let mut out: Vec<char> = Vec::new();
    loop
        invariant
            it.obeys_prophetic_iter_laws(),
            it.decrease() is Some,
            out@ + it.remaining() == s@,
        ensures
            out@ == s@,
        decreases it.decrease()->0,
    {
        let ghost before = it.remaining();
        match it.next() {
            Some(c) => {
                out.push(c);
                assert(before == seq![c] + it.remaining());
                assert(out@ + it.remaining() =~= s@);
            },
            None => {
                assert(out@ =~= s@);
                break ;
            },
        }
    }
    out
}

/// Whether `c` is an ASCII digit or a lowercase ASCII letter.
fn alnum(c: u8) -> (yes: bool)
    ensures
        yes == is_alnum(c),
{
    (0x30 <= c && c <= 0x39) || (0x61 <= c && c <= 0x7a)
}

/// Checks a bucket name: 3 to 63 bytes, a digit or lowercase letter at both
/// ends, only digits, lowercase letters, `-` and `.` between, and no two
/// dots in a row. The error holds the words for the first rule broken.
pub fn validate_bucket(b: &str) -> (out: Result<(), String>)
    ensures
        match bucket_fault(b.spec_bytes()) {
            None => out is Ok,
            Some(words) => out matches Err(said) && said@ == words,
        },
{
    let bytes = b.as_bytes();
    let len = bytes.len();
    if len < 3 || len > 63 {
        return Err("bucket name must be 3..=63 characters".to_owned());
    }
    let first = bytes[0];
    let last = bytes[len - 1];
    if !alnum(first) || !alnum(last) {
        return Err("bucket must start and end with a letter or digit".to_owned());
    }
    let mut i: usize = 0;
    while i < len
        invariant
            bytes@ == b.spec_bytes(),
            len == bytes@.len(),
            3 <= len <= 63,
            is_alnum(bytes@[0]) && is_alnum(bytes@.last()),
            i <= len,
            forall|j: int| 0 <= j < i ==> is_bucket_byte(#[trigger] bytes@[j]),
        decreases len - i,
    {
        let c = bytes[i];
        let ok = alnum(c) || c == 0x2d || c == 0x2e;
        if !ok {
            assert(!is_bucket_byte(bytes@[i as int]));
            return Err(
                "bucket may contain only lowercase letters, digits, '.' or '-'".to_owned(),
            );
        }
        i += 1;
    }
    let mut k: usize = 0;
    while k + 1 < len
        invariant
            bytes@ == b.spec_bytes(),
            len == bytes@.len(),
            3 <= len <= 63,
            is_alnum(bytes@[0]) && is_alnum(bytes@.last()),
            all_bucket_bytes(bytes@),
            k < len,
            forall|j: int| 0 <= j < k ==> !(#[trigger] bytes@[j] == 0x2e && bytes@[j + 1] == 0x2e),
        decreases len - k,
    {
        if bytes[k] == 0x2e && bytes[k + 1] == 0x2e {
            assert(bytes@[k as int] == 0x2e && bytes@[k + 1] == 0x2e);
            return Err("bucket may not contain consecutive '.' characters".to_owned());
        }
        k += 1;
    }
    Ok(())
}

/// Where archives go: a bucket and a key prefix inside it.
#[derive(Debug, Clone, PartialEq, Eq)]
pub struct ArchiveUrl {
    pub bucket: String,
    pub prefix: String,
}

impl ArchiveUrl {
    /// The invariant of a destination: the bucket name is valid, and the
    /// prefix is empty or ends with `/`.
    pub open spec fn wf(&self) -> bool {
        &&& bucket_fault(encode_utf8(self.bucket@)) is None
        &&& self.prefix@.len() > 0 ==> self.prefix@.last() == '/'
    }

    /// The destination written out: `s3://`, the bucket, and, where there
    /// is a prefix, `/` and the prefix.
    pub open spec fn text(&self) -> Seq<char> {
        if self.prefix@.len() == 0 {
            "s3://"@ + self.bucket@
        } else {
            "s3://"@ + self.bucket@ + "/"@ + self.prefix@
        }
    }

    /// Reads a destination from `raw`: after `s3://` the bucket runs up to
    /// the first `/`; what follows, without leading slashes and with one
    /// `/` at its end, is the prefix.
    pub fn parse(raw: &str) -> (out: Result<Self, String>)
        ensures
            match parsed(raw@) {
                Ok((bucket, prefix)) => out matches Ok(url) && url.bucket@ == bucket && url.prefix@
                    == prefix && url.wf(),
                Err(words) => out matches Err(said) && said@ == words,
            },
    {
        let cs = chars_of(raw);
        let len = cs.len();
        proof {
            reveal_strlit("s3://");
        }
        let scheme = len >= 5 && cs[0] == 's' && cs[1] == '3' && cs[2] == ':' && cs[3] == '/'
            && cs[4] == '/';
        if !scheme {
            assert(!has_scheme(raw@)) by {
                if raw@.len() >= 5 {
                    let t = raw@.take(5);
                    assert(t[0] == raw@[0] && t[1] == raw@[1] && t[2] == raw@[2] && t[3] == raw@[3]
                        && t[4] == raw@[4]);
                }
            }
            return Err("expected URL starting with s3://".to_owned());
        }
        assert(has_scheme(raw@)) by {
            assert(raw@.take(5) =~= "s3://"@);
        }
        let ghost rest = raw@.skip(5);
        let mut cut: usize = 5;
        while cut < len && cs[cut] != '/'
            invariant
                cs@ == raw@,
                len == cs@.len(),
                5 <= cut <= len,
                forall|i: int| 5 <= i < cut ==> cs@[i] != '/',
            decreases len - cut,
        {
            cut += 1;
        }
        proof {
            assert forall|i: int| 0 <= i < cut - 5 implies rest[i] != '/' by {
                assert(rest[i] == cs@[i + 5]);
            }
            lemma_cut(rest, cut - 5);
            assert(rest.take(cut - 5) =~= raw@.subrange(5, cut as int));
        }
        let bucket = raw.substring_char(5, cut);
        match validate_bucket(bucket) {
            Err(said) => {
                return Err(said);
            },
            Ok(()) => {},
        }
        let mut start: usize = if cut < len {
            cut + 1
        } else {
            len
        };
        let ghost tail = after_slash(rest);
        let ghost base = start;
        proof {
            if cut < len {
                assert(rest.skip(cut - 5 + 1) =~= raw@.skip(base as int));
            } else {
                assert(raw@.skip(base as int) =~= Seq::<char>::empty());
            }
            assert(tail == raw@.skip(base as int));
        }
        while start < len && cs[start] == '/'
            invariant
                cs@ == raw@,
                len == cs@.len(),
                base <= start <= len,
                forall|i: int| base <= i < start ==> cs@[i] == '/',
            decreases len - start,
        {
            start += 1;
        }
        proof {
            assert forall|i: int| 0 <= i < start - base implies tail[i] == '/' by {
                assert(tail[i] == cs@[i + base]);
            }
            lemma_trim(tail, start - base);
            assert(tail.skip(start - base) =~= raw@.subrange(start as int, len as int));
        }
        let kept = raw.substring_char(start, len);
        let mut prefix = kept.to_owned();
        if start < len && cs[len - 1] != '/' {
            proof {
                reveal_strlit("/");
                assert(kept@.last() == cs@[len - 1]);
            }
            prefix.append("/");
            assert(prefix@ =~= kept@.push('/'));
        } else {
            proof {
                if start < len {
                    assert(kept@.last() == cs@[len - 1]);
                }
            }
        }
        Ok(ArchiveUrl { bucket: bucket.to_owned(), prefix })
    }

    /// The destination written out, as [`ArchiveUrl::text`] has it.
    pub fn to_string(&self) -> (out: String)
        ensures
            out@ == self.text(),
    {
        let mut out = "s3://".to_owned();
        out.append(self.bucket.as_str());
        if !self.prefix.as_str().is_empty() {
            out.append("/");
            out.append(self.prefix.as_str());
        }
        out
    }
}

impl std::str::FromStr for ArchiveUrl {
    type Err = String;

    /// Reads a destination, as [`ArchiveUrl::parse`] does.
    fn from_str(raw: &str) -> (out: Result<Self, String>)
        ensures
            match parsed(raw@) {
                Ok((bucket, prefix)) => out matches Ok(url) && url.bucket@ == bucket && url.prefix@
                    == prefix && url.wf(),
                Err(words) => out matches Err(said) && said@ == words,
            },
    {
        ArchiveUrl::parse(raw)
    }
}

} // verus!
