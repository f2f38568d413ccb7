//! The remote commands, and the rules for what may stand in them.
//!
//! Every command is built here. A builder tests its arguments before it puts them into the
//! command's text, so that nothing which the remote shell would interpret gets in.
use crate::error::{outcome, ErrorView, RustmoteError};
use crate::text::{
    char_is_alphanumeric, chars_of, concat, concat3, decimal, decimal_writes_the_number,
    is_alphanumeric, is_digit, is_lower, starts_with, text_decimal, text_starts_with,
};
use base64::Engine;
use vstd::arithmetic::div_mod::{
    lemma_div_denominator, lemma_fundamental_div_mod, lemma_fundamental_div_mod_converse,
};
use vstd::prelude::*;

verus! {

// ---------------------------------------------------------------------------------------------
// What may stand in a command
// ---------------------------------------------------------------------------------------------

/// The characters of a remote path.
pub open spec fn is_path_char(c: char) -> bool {
    is_alphanumeric(c) || c == '/' || c == '.' || c == '_' || c == '-'
}

fn path_char(c: char) -> (r: bool)
    ensures
        r == is_path_char(c),
{
    char_is_alphanumeric(c) || c == '/' || c == '.' || c == '_' || c == '-'
}

/// Whether the component that begins at a position is `..`.
pub open spec fn dotdot_at(s: Seq<char>, i: int) -> bool {
    &&& 0 <= i
    &&& i + 2 <= s.len()
    &&& s[i] == '.'
    &&& s[i + 1] == '.'
    &&& (i == 0 || s[i - 1] == '/')
    &&& (i + 2 == s.len() || s[i + 2] == '/')
}

/// Whether some component between slashes is `..`.
pub open spec fn climbs(s: Seq<char>) -> bool {
    exists|i: int| dotdot_at(s, i)
}

fn has_dotdot(chars: &Vec<char>) -> (r: bool)
    ensures
        r == climbs(chars@),
{
    let mut i: usize = 0;
    while i < chars.len() && chars.len() - i >= 2
        invariant
            i <= chars@.len(),
            forall|j: int| 0 <= j < i ==> !dotdot_at(chars@, j),
        decreases chars@.len() - i,
    {
        if chars[i] == '.' && chars[i + 1] == '.' && (i == 0 || chars[i - 1] == '/') && (chars.len()
            - i == 2 || chars[i + 2] == '/') {
            assert(dotdot_at(chars@, i as int));
            return true;
        }
        assert(!dotdot_at(chars@, i as int));
        i += 1;
    }
    assert forall|j: int| !dotdot_at(chars@, j) by {
        if 0 <= j < i {
        }
    }
    false
}

/// An absolute path of plain characters that never climbs.
pub open spec fn is_remote_path(s: Seq<char>) -> bool {
    &&& s.len() > 0
    &&& s[0] == '/'
    &&& forall|i: int| 0 <= i < s.len() ==> is_path_char(#[trigger] s[i])
    &&& !climbs(s)
}

/// Tests a path that is to stand in a remote command: it is absolute, holds letters, digits and
/// `/._-` only, and has no `..` component.
pub fn validate_remote_path(path: &str) -> (r: Result<&str, RustmoteError>)
    ensures
        is_remote_path(path@) ==> (r matches Ok(p) && p@ == path@),
        !is_remote_path(path@) ==> (r matches Err(e) && e@ == RustmoteError::InvalidRelayPath(
            path@,
        )),
{
    let chars = chars_of(path);
    if chars.len() == 0 || chars[0] != '/' {
        return Err(RustmoteError::InvalidRelayPath(path.to_owned()));
    }
    let mut i: usize = 0;
    while i < chars.len()
        invariant
            i <= chars@.len(),
            chars@ == path@,
            forall|j: int| 0 <= j < i ==> is_path_char(#[trigger] chars@[j]),
        decreases chars@.len() - i,
    {
        if !path_char(chars[i]) {
            assert(!is_path_char(path@[i as int]));
            return Err(RustmoteError::InvalidRelayPath(path.to_owned()));
        }
        i += 1;
    }
    if has_dotdot(&chars) {
        return Err(RustmoteError::InvalidRelayPath(path.to_owned()));
    }
    Ok(path)
}

/// The characters of a repository name.
pub open spec fn is_repo_char(c: char) -> bool {
    is_lower(c) || is_digit(c) || c == '.' || c == '_' || c == '-' || c == '/'
}

/// The characters that separate the parts of a repository name.
pub open spec fn is_separator(c: char) -> bool {
    c == '/' || c == '.' || c == '-' || c == '_'
}

/// A repository name: 1 to 255 characters of the allowed ones, no separator at either end, and
/// no `..` component.
pub open spec fn is_repo(s: Seq<char>) -> bool {
    &&& 1 <= s.len() <= 255
    &&& forall|i: int| 0 <= i < s.len() ==> is_repo_char(#[trigger] s[i])
    &&& !is_separator(s[0])
    &&& !is_separator(s.last())
    &&& !climbs(s)
}

/// Tests a repository name, such as `rustdesk/rustdesk-server`.
pub fn validate_repo(repo: &str) -> (r: Result<&str, RustmoteError>)
    ensures
        is_repo(repo@) ==> (r matches Ok(s) && s@ == repo@),
        !is_repo(repo@) ==> (r matches Err(e) && e@ == RustmoteError::InvalidImageRef(
            "repo="@ + repo@,
        )),
{
    let chars = chars_of(repo);
    let mut ok = 1 <= chars.len() && chars.len() <= 255;
    let mut i: usize = 0;
    while ok && i < chars.len()
        invariant
            i <= chars@.len(),
            chars@ == repo@,
            ok ==> 1 <= chars@.len() <= 255,
            ok ==> forall|j: int| 0 <= j < i ==> is_repo_char(#[trigger] chars@[j]),
            !ok ==> !is_repo(repo@),
        decreases chars@.len() - i,
    {
        let c = chars[i];
        if !(('a' <= c && c <= 'z') || ('0' <= c && c <= '9') || c == '.' || c == '_' || c == '-'
            || c == '/') {
            assert(!is_repo_char(repo@[i as int]));
            ok = false;
        }
        i += 1;
    }
    if ok {
        let first = chars[0];
        let last = chars[chars.len() - 1];
        if first == '/' || first == '.' || first == '-' || first == '_' || last == '/' || last
            == '.' || last == '-' || last == '_' {
            ok = false;
        } else if has_dotdot(&chars) {
            ok = false;
        }
    }
    if ok {
        Ok(repo)
    } else {
        Err(RustmoteError::InvalidImageRef(concat("repo=", repo)))
    }
}

/// The characters of an image tag.
pub open spec fn is_tag_char(c: char) -> bool {
    is_alphanumeric(c) || c == '_' || c == '.' || c == '-'
}

/// An image tag: 1 to 128 characters of the allowed ones, the first neither a dot nor a hyphen.
pub open spec fn is_tag(s: Seq<char>) -> bool {
    &&& 1 <= s.len() <= 128
    &&& s[0] != '.'
    &&& s[0] != '-'
    &&& forall|i: int| 0 <= i < s.len() ==> is_tag_char(#[trigger] s[i])
}

fn all_tag_chars(chars: &Vec<char>) -> (r: bool)
    ensures
        r == (forall|i: int| 0 <= i < chars@.len() ==> is_tag_char(#[trigger] chars@[i])),
{
    let mut i: usize = 0;
    while i < chars.len()
        invariant
            i <= chars@.len(),
            forall|j: int| 0 <= j < i ==> is_tag_char(#[trigger] chars@[j]),
        decreases chars@.len() - i,
    {
        let c = chars[i];
        if !(char_is_alphanumeric(c) || c == '_' || c == '.' || c == '-') {
            assert(!is_tag_char(chars@[i as int]));
            return false;
        }
        i += 1;
    }
    true
}

/// Tests an image tag.
pub fn validate_tag(tag: &str) -> (r: Result<&str, RustmoteError>)
    ensures
        is_tag(tag@) ==> (r matches Ok(s) && s@ == tag@),
        !is_tag(tag@) ==> (r matches Err(e) && e@ == RustmoteError::InvalidImageRef(
            "tag="@ + tag@,
        )),
{
    let chars = chars_of(tag);
    if chars.len() == 0 || chars.len() > 128 || chars[0] == '.' || chars[0] == '-'
        || !all_tag_chars(&chars) {
        return Err(RustmoteError::InvalidImageRef(concat("tag=", tag)));
    }
    Ok(tag)
}

/// Lower-case hexadecimal digits.
pub open spec fn is_lower_hex(c: char) -> bool {
    is_digit(c) || 'a' <= c <= 'f'
}

/// An image digest: `sha256:` and 64 lower-case hexadecimal digits.
pub open spec fn is_digest(s: Seq<char>) -> bool {
    &&& s.len() == 71
    &&& starts_with(s, "sha256:"@)
    &&& forall|i: int| 7 <= i < s.len() ==> is_lower_hex(#[trigger] s[i])
}

/// Tests an image digest.
pub fn validate_digest(digest: &str) -> (r: Result<&str, RustmoteError>)
    ensures
        is_digest(digest@) ==> (r matches Ok(s) && s@ == digest@),
        !is_digest(digest@) ==> (r matches Err(e) && e@ == RustmoteError::InvalidImageRef(
            "digest="@ + digest@,
        )),
{
    let chars = chars_of(digest);
    if !text_starts_with(digest, "sha256:") || chars.len() != 71 {
        return Err(RustmoteError::InvalidImageRef(concat("digest=", digest)));
    }
    let mut i: usize = 7;
    while i < chars.len()
        invariant
            7 <= i <= chars@.len(),
            chars@ == digest@,
            forall|j: int| 7 <= j < i ==> is_lower_hex(#[trigger] chars@[j]),
        decreases chars@.len() - i,
    {
        let c = chars[i];
        if !(('0' <= c && c <= '9') || ('a' <= c && c <= 'f')) {
            assert(!is_lower_hex(digest@[i as int]));
            return Err(RustmoteError::InvalidImageRef(concat("digest=", digest)));
        }
        i += 1;
    }
    Ok(digest)
}

/// What may follow `pre-update-` in a backup directory's name: 1 to 64 letters, digits and `-_.`.
pub open spec fn is_backup_suffix(s: Seq<char>) -> bool {
    &&& 1 <= s.len() <= 64
    &&& forall|i: int| 0 <= i < s.len() ==> is_tag_char(#[trigger] s[i])
}

/// Tests the timestamp in a backup directory's name.
pub fn validate_backup_suffix(suffix: &str) -> (r: Result<&str, RustmoteError>)
    ensures
        is_backup_suffix(suffix@) ==> (r matches Ok(s) && s@ == suffix@),
        !is_backup_suffix(suffix@) ==> (r matches Err(e) && e@ == RustmoteError::InvalidRelayPath(
            "backup-suffix="@ + suffix@,
        )),
{
    let chars = chars_of(suffix);
    if chars.len() == 0 || chars.len() > 64 || !all_tag_chars(&chars) {
        return Err(RustmoteError::InvalidRelayPath(concat("backup-suffix=", suffix)));
    }
    Ok(suffix)
}

// ---------------------------------------------------------------------------------------------
// Base64
// ---------------------------------------------------------------------------------------------

/// The character of a six-bit value in the standard alphabet.
pub open spec fn base64_char(v: int) -> char {
    if v < 26 {
        (65 + v) as char
    } else if v < 52 {
        (97 + v - 26) as char
    } else if v < 62 {
        (48 + v - 52) as char
    } else if v == 62 {
        '+'
    } else {
        '/'
    }
}

/// A byte of the content, zero behind its end.
pub open spec fn byte_at(content: Seq<u8>, i: int) -> int {
    if 0 <= i < content.len() {
        content[i] as int
    } else {
        0
    }
}

/// The 24 bits of the three bytes from `3 * q` on.
pub open spec fn group_at(content: Seq<u8>, q: int) -> int {
    byte_at(content, 3 * q) * 65536 + byte_at(content, 3 * q + 1) * 256 + byte_at(
        content,
        3 * q + 2,
    )
}

/// The `k`-th six-bit value of the content.
pub open spec fn sextet_at(content: Seq<u8>, k: int) -> int {
    let group = group_at(content, k / 4);
    if k % 4 == 0 {
        group / 262144
    } else if k % 4 == 1 {
        (group / 4096) % 64
    } else if k % 4 == 2 {
        (group / 64) % 64
    } else {
        group % 64
    }
}

/// Standard base64 with padding: four characters for each three bytes begun, and `=` where a
/// character carries none of the content.
pub open spec fn base64_text(content: Seq<u8>) -> Seq<char> {
    Seq::new(
        (4 * ((content.len() + 2) / 3)) as nat,
        |k: int|
            if 3 * (k / 4) + k % 4 > content.len() {
                '='
            } else {
                base64_char(sextet_at(content, k))
            },
    )
}

/// Letters, digits, plus, slash and the padding sign.
pub open spec fn is_base64_char(c: char) -> bool {
    is_alphanumeric(c) || c == '+' || c == '/' || c == '='
}

/// The six-bit value of a character of the standard alphabet; zero for the padding sign.
pub open spec fn base64_value(c: char) -> int {
    if 'A' <= c <= 'Z' {
        c as int - 65
    } else if 'a' <= c <= 'z' {
        c as int - 97 + 26
    } else if '0' <= c <= '9' {
        c as int - 48 + 52
    } else if c == '+' {
        62
    } else if c == '/' {
        63
    } else {
        0
    }
}

/// The number of padding signs at the end of an encoded text.
pub open spec fn base64_padding(s: Seq<char>) -> int {
    if s.len() >= 1 && s.last() == '=' {
        if s.len() >= 2 && s[s.len() - 2] == '=' {
            2
        } else {
            1
        }
    } else {
        0
    }
}

/// The 24 bits of four encoded characters.
pub open spec fn decoded_group(s: Seq<char>, q: int) -> int {
    base64_value(s[4 * q]) * 262144 + base64_value(s[4 * q + 1]) * 4096 + base64_value(s[4 * q + 2])
        * 64 + base64_value(s[4 * q + 3])
}

/// The bytes that an encoded text stands for.
pub open spec fn base64_content(s: Seq<char>) -> Seq<u8> {
    Seq::new(
        (3 * (s.len() / 4) - base64_padding(s)) as nat,
        |i: int|
            {
                let group = decoded_group(s, i / 3);
                if i % 3 == 0 {
                    (group / 65536) as u8
                } else if i % 3 == 1 {
                    ((group / 256) % 256) as u8
                } else {
                    (group % 256) as u8
                }
            },
    )
}

proof fn lemma_base64_value(v: int)
    requires
        0 <= v < 64,
    ensures
        base64_value(base64_char(v)) == v,
        base64_char(v) != '=',
        is_base64_char(base64_char(v)),
{
}

proof fn lemma_group_sextets(g: int)
    requires
        0 <= g < 16777216,
    ensures
        0 <= g / 262144 < 64,
        0 <= (g / 4096) % 64 < 64,
        0 <= (g / 64) % 64 < 64,
        (g / 262144) * 262144 + ((g / 4096) % 64) * 4096 + ((g / 64) % 64) * 64 + g % 64 == g,
{
    let high = g / 64;
    let higher = high / 64;
    lemma_fundamental_div_mod(g, 64);
    lemma_fundamental_div_mod(high, 64);
    lemma_fundamental_div_mod(higher, 64);
    lemma_div_denominator(g, 64, 64);
    lemma_div_denominator(g, 4096, 64);
}

proof fn lemma_empty_sextets(x: int, y: int)
    ensures
        (x * 65536 + y * 256) % 64 == 0,
        ((x * 65536) / 64) % 64 == 0,
{
    lemma_fundamental_div_mod_converse(x * 65536 + y * 256, 64, x * 1024 + y * 4, 0);
    lemma_fundamental_div_mod_converse(x * 65536, 64, x * 1024, 0);
    lemma_fundamental_div_mod_converse(x * 1024, 64, x * 16, 0);
}

proof fn lemma_sextets(content: Seq<u8>, q: int)
    requires
        0 <= q,
    ensures
        ({
            let g = group_at(content, q);
            let a = sextet_at(content, 4 * q);
            let b = sextet_at(content, 4 * q + 1);
            let c = sextet_at(content, 4 * q + 2);
            let d = sextet_at(content, 4 * q + 3);
            &&& 0 <= a < 64
            &&& 0 <= b < 64
            &&& 0 <= c < 64
            &&& 0 <= d < 64
            &&& a * 262144 + b * 4096 + c * 64 + d == g
            &&& 3 * q + 2 >= content.len() ==> d == 0
            &&& 3 * q + 1 >= content.len() ==> c == 0
        }),
{
    assert((4 * q) / 4 == q && (4 * q) % 4 == 0);
    assert((4 * q + 1) / 4 == q && (4 * q + 1) % 4 == 1);
    assert((4 * q + 2) / 4 == q && (4 * q + 2) % 4 == 2);
    assert((4 * q + 3) / 4 == q && (4 * q + 3) % 4 == 3);
    lemma_group_sextets(group_at(content, q));
    lemma_empty_sextets(byte_at(content, 3 * q), byte_at(content, 3 * q + 1));
}

proof fn lemma_base64_text_at(content: Seq<u8>, q: int, m: int)
    requires
        0 <= q < (content.len() + 2) / 3,
        0 <= m < 4,
    ensures
        4 * q + m < base64_text(content).len(),
        is_base64_char(base64_text(content)[4 * q + m]),
        3 * q + m > content.len() ==> base64_text(content)[4 * q + m] == '=',
        3 * q + m <= content.len() ==> base64_text(content)[4 * q + m] != '=',
        base64_value(base64_text(content)[4 * q + m]) == sextet_at(content, 4 * q + m),
{
    let k = 4 * q + m;
    assert(k / 4 == q && k % 4 == m);
    lemma_sextets(content, q);
    assert(m == 0 || m == 1 || m == 2 || m == 3);
    lemma_base64_value(sextet_at(content, k));
}

proof fn lemma_base64_padding(content: Seq<u8>)
    ensures
        base64_padding(base64_text(content)) == 3 * ((content.len() + 2) / 3) - content.len(),
{
    let s = base64_text(content);
    let groups = (content.len() as int + 2) / 3;
    if content.len() > 0 {
        lemma_base64_text_at(content, groups - 1, 2);
        lemma_base64_text_at(content, groups - 1, 3);
        assert(s.last() == s[4 * (groups - 1) + 3]);
        assert(s[s.len() - 2] == s[4 * (groups - 1) + 2]);
    }
}

proof fn lemma_group_bytes(x: int, y: int, z: int)
    requires
        0 <= x < 256,
        0 <= y < 256,
        0 <= z < 256,
    ensures
        (x * 65536 + y * 256 + z) / 65536 == x,
        ((x * 65536 + y * 256 + z) / 256) % 256 == y,
        (x * 65536 + y * 256 + z) % 256 == z,
{
    let g = x * 65536 + y * 256 + z;
    lemma_fundamental_div_mod_converse(g, 65536, x, y * 256 + z);
    lemma_fundamental_div_mod_converse(g, 256, x * 256 + y, z);
    lemma_fundamental_div_mod_converse(x * 256 + y, 256, x, y);
}

proof fn lemma_base64_group(content: Seq<u8>, q: int)
    requires
        0 <= q < (content.len() + 2) / 3,
    ensures
        decoded_group(base64_text(content), q) == group_at(content, q),
{
    lemma_sextets(content, q);
    lemma_base64_text_at(content, q, 0);
    lemma_base64_text_at(content, q, 1);
    lemma_base64_text_at(content, q, 2);
    lemma_base64_text_at(content, q, 3);
}

proof fn lemma_base64_byte(content: Seq<u8>, i: int)
    requires
        0 <= i < content.len(),
        i < base64_content(base64_text(content)).len(),
    ensures
        base64_content(base64_text(content))[i] == content[i],
{
    let q = i / 3;
    lemma_base64_group(content, q);
    lemma_group_bytes(
        byte_at(content, 3 * q),
        byte_at(content, 3 * q + 1),
        byte_at(content, 3 * q + 2),
    );
    if i % 3 == 0 {
        assert(i == 3 * q);
    } else if i % 3 == 1 {
        assert(i == 3 * q + 1);
    } else {
        assert(i == 3 * q + 2);
    }
}

/// What base64 text stands for is what was encoded, and it holds letters, digits and `+/=` only.
/// So the file that a write command leaves on the remote holds the content, and the content puts
/// nothing before the remote shell that it would interpret.
pub proof fn base64_gives_the_content_back(content: Seq<u8>)
    ensures
        base64_content(base64_text(content)) == content,
        forall|k: int|
            0 <= k < base64_text(content).len() ==> is_base64_char(
                #[trigger] base64_text(content)[k],
            ),
{
    let s = base64_text(content);
    assert forall|k: int| 0 <= k < s.len() implies is_base64_char(#[trigger] s[k]) by {
        lemma_base64_text_at(content, k / 4, k % 4);
    }
    lemma_base64_padding(content);
    assert(base64_content(s).len() == content.len());
    assert forall|i: int| 0 <= i < content.len() implies base64_content(s)[i] == content[i] by {
        lemma_base64_byte(content, i);
    }
    assert(base64_content(s) =~= content);
}

/// `Engine::encode` of base64, with the engine for the standard alphabet and padding.
#[verifier::external_body]
fn base64_encode(content: &[u8]) -> (r: String)
    ensures
        r@ == base64_text(content@),
{
    base64::engine::general_purpose::STANDARD.encode(content)
}

// ---------------------------------------------------------------------------------------------
// Commands
// ---------------------------------------------------------------------------------------------

/// Reads the system's identification.
pub fn read_os_release() -> (r: String)
    ensures
        r@ == "cat /etc/os-release"@,
{
    "cat /etc/os-release".to_owned()
}

/// Exits with zero where the container engine is installed.
pub fn check_docker_present() -> (r: String)
    ensures
        r@ == "command -v docker"@,
{
    "command -v docker".to_owned()
}

/// Exits with zero where the compose plugin is installed.
pub fn check_docker_compose_v2() -> (r: String)
    ensures
        r@ == "docker compose version"@,
{
    "docker compose version".to_owned()
}

/// Exits with zero where the old compose tool is installed.
pub fn check_docker_compose_v1() -> (r: String)
    ensures
        r@ == "docker-compose --version"@,
{
    "docker-compose --version".to_owned()
}

/// A command with one path in it; the path's failure where it may not stand there.
pub open spec fn path_command(before: Seq<char>, path: Seq<char>, after: Seq<char>) -> Result<
    Seq<char>,
    ErrorView,
> {
    if is_remote_path(path) {
        Ok(before + path + after)
    } else {
        Err(RustmoteError::InvalidRelayPath(path))
    }
}

fn with_path(before: &str, path: &str, after: &str) -> (r: Result<String, RustmoteError>)
    ensures
        outcome(r) == path_command(before@, path@, after@),
{
    match validate_remote_path(path) {
        Ok(p) => Ok(concat3(before, p, after)),
        Err(e) => Err(e),
    }
}

/// Tells by its status whether a directory is there.
pub open spec fn test_dir_exists_command(path: Seq<char>) -> Result<Seq<char>, ErrorView> {
    path_command("test -d "@, path, seq![])
}

/// Exits with zero where the path is a directory.
pub fn test_dir_exists(path: &str) -> (r: Result<String, RustmoteError>)
    ensures
        outcome(r) == test_dir_exists_command(path@),
{
    proof {
        reveal_strlit("");
    }
    assert(""@ =~= Seq::<char>::empty());
    with_path("test -d ", path, "")
}

/// Tells by its status whether a file is there.
pub open spec fn test_file_exists_command(path: Seq<char>) -> Result<Seq<char>, ErrorView> {
    path_command("test -f "@, path, seq![])
}

/// Exits with zero where the path is a file.
pub fn test_file_exists(path: &str) -> (r: Result<String, RustmoteError>)
    ensures
        outcome(r) == test_file_exists_command(path@),
{
    proof {
        reveal_strlit("");
    }
    assert(""@ =~= Seq::<char>::empty());
    with_path("test -f ", path, "")
}

/// Makes a directory and those above it.
pub open spec fn mkdir_p_command(path: Seq<char>) -> Result<Seq<char>, ErrorView> {
    path_command("mkdir -p "@, path, seq![])
}

/// Makes a directory and those above it.
pub fn mkdir_p(path: &str) -> (r: Result<String, RustmoteError>)
    ensures
        outcome(r) == mkdir_p_command(path@),
{
    proof {
        reveal_strlit("");
    }
    assert(""@ =~= Seq::<char>::empty());
    with_path("mkdir -p ", path, "")
}

/// Prints a file.
pub open spec fn cat_file_command(path: Seq<char>) -> Result<Seq<char>, ErrorView> {
    path_command("cat "@, path, seq![])
}

/// Reads a file.
pub fn cat_file(path: &str) -> (r: Result<String, RustmoteError>)
    ensures
        outcome(r) == cat_file_command(path@),
{
    proof {
        reveal_strlit("");
    }
    assert(""@ =~= Seq::<char>::empty());
    with_path("cat ", path, "")
}

/// Removes a directory and all below it.
pub open spec fn remove_tree_command(path: Seq<char>) -> Result<Seq<char>, ErrorView> {
    path_command("rm -rf "@, path, seq![])
}

/// Removes a directory and all below it.
pub fn remove_tree(path: &str) -> (r: Result<String, RustmoteError>)
    ensures
        outcome(r) == remove_tree_command(path@),
{
    proof {
        reveal_strlit("");
    }
    assert(""@ =~= Seq::<char>::empty());
    with_path("rm -rf ", path, "")
}

/// Starts the services of the compose file.
pub open spec fn compose_up_command(install_path: Seq<char>) -> Result<Seq<char>, ErrorView> {
    path_command("cd "@, install_path, " && docker compose up -d"@)
}

/// Starts the services.
pub fn compose_up(install_path: &str) -> (r: Result<String, RustmoteError>)
    ensures
        outcome(r) == compose_up_command(install_path@),
{
    with_path("cd ", install_path, " && docker compose up -d")
}

/// Fetches the images of the compose file.
pub open spec fn compose_pull_command(install_path: Seq<char>) -> Result<Seq<char>, ErrorView> {
    path_command("cd "@, install_path, " && docker compose pull"@)
}

/// Fetches the services' images.
pub fn compose_pull(install_path: &str) -> (r: Result<String, RustmoteError>)
    ensures
        outcome(r) == compose_pull_command(install_path@),
{
    with_path("cd ", install_path, " && docker compose pull")
}

/// Prints the effective compose file.
pub open spec fn compose_config_command(install_path: Seq<char>) -> Result<Seq<char>, ErrorView> {
    path_command("cd "@, install_path, " && docker compose config"@)
}

/// Shows the effective compose file.
pub fn compose_config(install_path: &str) -> (r: Result<String, RustmoteError>)
    ensures
        outcome(r) == compose_config_command(install_path@),
{
    with_path("cd ", install_path, " && docker compose config")
}

/// Lists the containers of the compose file.
pub open spec fn compose_ps_json_command(install_path: Seq<char>) -> Result<Seq<char>, ErrorView> {
    path_command("cd "@, install_path, " && docker compose ps --format json"@)
}

/// Lists the containers as JSON.
pub fn compose_ps_json(install_path: &str) -> (r: Result<String, RustmoteError>)
    ensures
        outcome(r) == compose_ps_json_command(install_path@),
{
    with_path("cd ", install_path, " && docker compose ps --format json")
}

/// Prints the end of the services' logs.
pub open spec fn compose_logs_tail_command(install_path: Seq<char>) -> Result<Seq<char>, ErrorView> {
    path_command("cd "@, install_path, " && docker compose logs --no-color --tail 200"@)
}

/// Shows the last lines of the services' logs.
pub fn compose_logs_tail(install_path: &str) -> (r: Result<String, RustmoteError>)
    ensures
        outcome(r) == compose_logs_tail_command(install_path@),
{
    with_path("cd ", install_path, " && docker compose logs --no-color --tail 200")
}

/// Copies a file.
pub open spec fn copy_file_command(src: Seq<char>, dst: Seq<char>) -> Result<
    Seq<char>,
    ErrorView,
> {
    if !is_remote_path(src) {
        Err(RustmoteError::InvalidRelayPath(src))
    } else if !is_remote_path(dst) {
        Err(RustmoteError::InvalidRelayPath(dst))
    } else {
        Ok("cp -a "@ + src + " "@ + dst)
    }
}

/// Copies a file with its attributes.
pub fn copy_file(src: &str, dst: &str) -> (r: Result<String, RustmoteError>)
    ensures
        outcome(r) == copy_file_command(src@, dst@),
{
    match validate_remote_path(src) {
        Err(e) => Err(e),
        Ok(s) => match validate_remote_path(dst) {
            Err(e) => Err(e),
            Ok(d) => {
                let mut out = concat3("cp -a ", s, " ");
                out.push_str(d);
                Ok(out)
            },
        },
    }
}

/// Writes a file, with its content in base64.
pub open spec fn write_file_command(path: Seq<char>, content: Seq<u8>) -> Result<
    Seq<char>,
    ErrorView,
> {
    if is_remote_path(path) {
        Ok(
            "printf %s "@ + base64_text(content) + " | base64 -d > "@ + path
                + ".rustmote-tmp && mv "@ + path + ".rustmote-tmp "@ + path + " && chmod 0644 "@
                + path,
        )
    } else {
        Err(RustmoteError::InvalidRelayPath(path))
    }
}

/// Writes a file: the content goes over the line in base64, is decoded beside the file, moved
/// into its place and made readable.
pub fn write_file(path: &str, content: &[u8]) -> (r: Result<String, RustmoteError>)
    ensures
        outcome(r) == write_file_command(path@, content@),
{
    match validate_remote_path(path) {
        Err(e) => Err(e),
        Ok(p) => {
            let encoded = base64_encode(content);
            let mut out = concat3("printf %s ", encoded.as_str(), " | base64 -d > ");
            out.push_str(p);
            out.push_str(".rustmote-tmp && mv ");
            out.push_str(p);
            out.push_str(".rustmote-tmp ");
            out.push_str(p);
            out.push_str(" && chmod 0644 ");
            out.push_str(p);
            Ok(out)
        },
    }
}

/// Tells by its status whether a local port is open.
pub open spec fn tcp_probe_command(port: u16) -> Seq<char> {
    "bash -c 'exec 3<>/dev/tcp/127.0.0.1/"@ + decimal(port as nat) + "' 2>/dev/null"@
}

/// Exits with zero where the port of the remote's loopback interface takes a connection.
pub fn tcp_probe(port: u16) -> (r: String)
    ensures
        r@ == tcp_probe_command(port),
{
    let number = text_decimal(port as u64);
    concat3("bash -c 'exec 3<>/dev/tcp/127.0.0.1/", number.as_str(), "' 2>/dev/null")
}

/// Lists the backups with their times.
pub open spec fn list_backups_command(backups_path: Seq<char>) -> Result<Seq<char>, ErrorView> {
    path_command(
        "find "@,
        backups_path,
        " -mindepth 1 -maxdepth 1 -type d -name 'pre-update-*' -printf '%T@\\t%p\\n'"@,
    )
}

/// Lists the backup directories, each with the time of its last change.
pub fn list_backups(backups_path: &str) -> (r: Result<String, RustmoteError>)
    ensures
        outcome(r) == list_backups_command(backups_path@),
{
    with_path(
        "find ",
        backups_path,
        " -mindepth 1 -maxdepth 1 -type d -name 'pre-update-*' -printf '%T@\\t%p\\n'",
    )
}

/// An image by name, tag and digest, or the failure of the first part that is malformed.
pub open spec fn image_ref(repo: Seq<char>, tag: Seq<char>, digest: Seq<char>) -> Result<
    Seq<char>,
    ErrorView,
> {
    if !is_repo(repo) {
        Err(RustmoteError::InvalidImageRef("repo="@ + repo))
    } else if !is_tag(tag) {
        Err(RustmoteError::InvalidImageRef("tag="@ + tag))
    } else if !is_digest(digest) {
        Err(RustmoteError::InvalidImageRef("digest="@ + digest))
    } else {
        Ok(repo + ":"@ + tag + "@"@ + digest)
    }
}

/// The image reference `repo:tag@digest`.
pub fn pinned_image_ref(repo: &str, tag: &str, digest: &str) -> (r: Result<String, RustmoteError>)
    ensures
        outcome(r) == image_ref(repo@, tag@, digest@),
{
    match validate_repo(repo) {
        Err(e) => Err(e),
        Ok(valid_repo) => match validate_tag(tag) {
            Err(e) => Err(e),
            Ok(valid_tag) => match validate_digest(digest) {
                Err(e) => Err(e),
                Ok(valid_digest) => {
                    let mut out = concat3(valid_repo, ":", valid_tag);
                    out.push_str("@");
                    out.push_str(valid_digest);
                    Ok(out)
                },
            },
        },
    }
}

// ---------------------------------------------------------------------------------------------
// What the commands say
// ---------------------------------------------------------------------------------------------

/// A command on a path names that path and no other, and is built exactly where the path may stand
/// in one: to look for a directory or a file, to make a directory, to read a file, to remove a
/// tree.
pub proof fn commands_name_their_path(
    path: &str,
    is_dir: Result<String, RustmoteError>,
    is_file: Result<String, RustmoteError>,
    make: Result<String, RustmoteError>,
    read: Result<String, RustmoteError>,
    remove: Result<String, RustmoteError>,
)
    requires
        call_ensures(test_dir_exists, (path,), is_dir),
        call_ensures(test_file_exists, (path,), is_file),
        call_ensures(mkdir_p, (path,), make),
        call_ensures(cat_file, (path,), read),
        call_ensures(remove_tree, (path,), remove),
    ensures
        is_remote_path(path@) ==> {
            &&& is_dir matches Ok(command) && command@ == "test -d "@ + path@
            &&& is_file matches Ok(command) && command@ == "test -f "@ + path@
            &&& make matches Ok(command) && command@ == "mkdir -p "@ + path@
            &&& read matches Ok(command) && command@ == "cat "@ + path@
            &&& remove matches Ok(command) && command@ == "rm -rf "@ + path@
        },
        !is_remote_path(path@) ==> is_dir is Err && is_file is Err && make is Err && read is Err
            && remove is Err,
{
    if is_remote_path(path@) {
        assert("test -d "@ + path@ + seq![] =~= "test -d "@ + path@);
        assert("test -f "@ + path@ + seq![] =~= "test -f "@ + path@);
        assert("mkdir -p "@ + path@ + seq![] =~= "mkdir -p "@ + path@);
        assert("cat "@ + path@ + seq![] =~= "cat "@ + path@);
        assert("rm -rf "@ + path@ + seq![] =~= "rm -rf "@ + path@);
    }
}

/// A command of the compose tool runs in the install path, and is built exactly where that may
/// stand in one: to start the services, to fetch the images, to show the effective file, to list
/// the containers.
pub proof fn compose_commands_run_in_the_install_path(
    path: &str,
    up: Result<String, RustmoteError>,
    pull: Result<String, RustmoteError>,
    config: Result<String, RustmoteError>,
    ps: Result<String, RustmoteError>,
)
    requires
        call_ensures(compose_up, (path,), up),
        call_ensures(compose_pull, (path,), pull),
        call_ensures(compose_config, (path,), config),
        call_ensures(compose_ps_json, (path,), ps),
    ensures
        is_remote_path(path@) ==> {
            &&& up matches Ok(command) && command@ == "cd "@ + path@ + " && docker compose up -d"@
            &&& pull matches Ok(command) && command@ == "cd "@ + path@ + " && docker compose pull"@
            &&& config matches Ok(command) && command@ == "cd "@ + path@
                + " && docker compose config"@
            &&& ps matches Ok(command) && command@ == "cd "@ + path@
                + " && docker compose ps --format json"@
        },
        !is_remote_path(path@) ==> up is Err && pull is Err && config is Err && ps is Err,
{
}

/// A copy goes from the first path to the second.
pub proof fn copies_go_from_the_first_to_the_second(
    src: &str,
    dst: &str,
    r: Result<String, RustmoteError>,
)
    requires
        call_ensures(copy_file, (src, dst), r),
    ensures
        r is Ok <==> is_remote_path(src@) && is_remote_path(dst@),
        r matches Ok(command) ==> command@ == "cp -a "@ + src@ + " "@ + dst@,
{
}

/// A file is written beside its place first and then moved there; what is written is the content,
/// in base64, which the remote turns back.
pub proof fn files_are_written_whole(path: &str, content: &[u8], r: Result<String, RustmoteError>)
    requires
        call_ensures(write_file, (path, content), r),
    ensures
        r is Ok <==> is_remote_path(path@),
        r matches Ok(command) ==> {
            let text = base64_text(content@);
            &&& command@ == "printf %s "@ + text + " | base64 -d > "@ + path@
                + ".rustmote-tmp && mv "@ + path@ + ".rustmote-tmp "@ + path@ + " && chmod 0644 "@
                + path@
            &&& base64_content(text) == content@
        },
{
    base64_gives_the_content_back(content@);
}

/// A probe tries the port that it is given, on the remote itself, and the probes of two ports are
/// two commands.
pub proof fn probes_try_their_port(port: u16, r: String, other: u16, s: String)
    requires
        call_ensures(tcp_probe, (port,), r),
        call_ensures(tcp_probe, (other,), s),
    ensures
        r@ == "bash -c 'exec 3<>/dev/tcp/127.0.0.1/"@ + decimal(port as nat) + "' 2>/dev/null"@,
        r@ == s@ ==> port == other,
{
    if r@ == s@ {
        let before = "bash -c 'exec 3<>/dev/tcp/127.0.0.1/"@;
        let after = "' 2>/dev/null"@;
        let n = before.len() as int;
        let a = decimal(port as nat);
        let b = decimal(other as nat);
        assert(r@.len() == s@.len());
        assert(a.len() == b.len());
        assert(a =~= r@.subrange(n, n + a.len()));
        assert(b =~= s@.subrange(n, n + b.len()));
        decimal_writes_the_number(port as nat);
        decimal_writes_the_number(other as nat);
    }
}

/// An image reference names repository, tag and digest, in this order, and is built exactly where
/// all three are well-formed.
pub proof fn references_name_repository_tag_and_digest(
    repo: &str,
    tag: &str,
    digest: &str,
    r: Result<String, RustmoteError>,
)
    requires
        call_ensures(pinned_image_ref, (repo, tag, digest), r),
    ensures
        r is Ok <==> is_repo(repo@) && is_tag(tag@) && is_digest(digest@),
        r matches Ok(reference) ==> reference@ == repo@ + ":"@ + tag@ + "@"@ + digest@,
{
}

/// Whether a character is a letter or a digit of ASCII.
pub open spec fn is_plain(c: char) -> bool {
    'a' <= c <= 'z' || 'A' <= c <= 'Z' || '0' <= c <= '9'
}

/// A path is accepted exactly where it is absolute, holds nothing but letters, digits and the four
/// characters `/._-`, and no component of it is `..`. So nothing gets into a command that the
/// remote shell would interpret.
pub proof fn accepted_paths_are_plain(path: &str, r: Result<&str, RustmoteError>)
    requires
        call_ensures(validate_remote_path, (path,), r),
    ensures
        r is Ok <==> {
            &&& path@.len() > 0
            &&& path@[0] == '/'
            &&& forall|i: int|
                0 <= i < path@.len() ==> {
                    let c = #[trigger] path@[i];
                    is_plain(c) || c == '/' || c == '.' || c == '_' || c == '-'
                }
            &&& forall|i: int|
                1 <= i && i + 2 <= path@.len() && #[trigger] path@[i] == '.' && path@[i + 1] == '.'
                    && path@[i - 1] == '/' ==> i + 2 < path@.len() && path@[i + 2] != '/'
        },
        r matches Ok(p) ==> p@ == path@,
        r matches Err(e) ==> e@ == RustmoteError::InvalidRelayPath(path@),
{
    let s = path@;
    if is_remote_path(s) {
        assert forall|i: int|
            1 <= i && i + 2 <= s.len() && #[trigger] s[i] == '.' && s[i + 1] == '.' && s[i - 1]
                == '/' implies i + 2 < s.len() && s[i + 2] != '/' by {
            assert(!dotdot_at(s, i));
        }
    } else if s.len() > 0 && s[0] == '/' {
        if climbs(s) {
            let i = choose|i: int| dotdot_at(s, i);
            assert(dotdot_at(s, i));
            assert(s[i] == '.');
        } else {
            let i = choose|i: int| 0 <= i < s.len() && !is_path_char(s[i]);
            assert(!is_path_char(s[i]));
        }
    }
}

/// A tag is accepted exactly where it has one to 128 characters, each a letter, a digit or one of
/// `_.-`, and begins with neither a dot nor a hyphen.
pub proof fn accepted_tags_are_plain(tag: &str, r: Result<&str, RustmoteError>)
    requires
        call_ensures(validate_tag, (tag,), r),
    ensures
        r is Ok <==> {
            &&& 1 <= tag@.len() <= 128
            &&& tag@[0] != '.'
            &&& tag@[0] != '-'
            &&& forall|i: int|
                0 <= i < tag@.len() ==> {
                    let c = #[trigger] tag@[i];
                    is_plain(c) || c == '_' || c == '.' || c == '-'
                }
        },
        r matches Ok(t) ==> t@ == tag@,
{
    if !is_tag(tag@) && 1 <= tag@.len() <= 128 && tag@[0] != '.' && tag@[0] != '-' {
        let i = choose|i: int| 0 <= i < tag@.len() && !is_tag_char(tag@[i]);
        assert(!is_tag_char(tag@[i]));
    }
}

/// A digest is accepted exactly where it is `sha256:` and 64 digits of the hexadecimal system, the
/// letters among them small.
pub proof fn accepted_digests_are_hashes(digest: &str, r: Result<&str, RustmoteError>)
    requires
        call_ensures(validate_digest, (digest,), r),
    ensures
        r is Ok <==> {
            &&& digest@.len() == 71
            &&& digest@.take(7) == "sha256:"@
            &&& forall|i: int|
                7 <= i < 71 ==> {
                    let c = #[trigger] digest@[i];
                    '0' <= c <= '9' || 'a' <= c <= 'f'
                }
        },
        r matches Ok(d) ==> d@ == digest@,
{
    reveal_strlit("sha256:");
    if !is_digest(digest@) && digest@.len() == 71 && starts_with(digest@, "sha256:"@) {
        let i = choose|i: int| 7 <= i < digest@.len() && !is_lower_hex(digest@[i]);
        assert(!is_lower_hex(digest@[i]));
    }
}

/// A repository is accepted only where it has one to 255 characters, each a small letter, a digit
/// or one of `._-/`, and neither begins nor ends with one of those four.
pub proof fn accepted_repositories_are_plain(repo: &str, r: Result<&str, RustmoteError>)
    requires
        call_ensures(validate_repo, (repo,), r),
    ensures
        r matches Ok(name) ==> {
            &&& name@ == repo@
            &&& 1 <= repo@.len() <= 255
            &&& forall|i: int|
                0 <= i < repo@.len() ==> {
                    let c = #[trigger] repo@[i];
                    'a' <= c <= 'z' || '0' <= c <= '9' || c == '.' || c == '_' || c == '-' || c
                        == '/'
                }
            &&& 'a' <= repo@[0] <= 'z' || '0' <= repo@[0] <= '9'
            &&& 'a' <= repo@.last() <= 'z' || '0' <= repo@.last() <= '9'
        },
        1 <= repo@.len() <= 255 && (forall|i: int|
            0 <= i < repo@.len() ==> 'a' <= #[trigger] repo@[i] <= 'z' || '0' <= repo@[i] <= '9')
            ==> r is Ok,
{
    let s = repo@;
    if is_repo(s) {
        assert(is_repo_char(s[0]));
        assert(s.last() == s[s.len() - 1]);
        assert(is_repo_char(s[s.len() - 1]));
    }
    if 1 <= s.len() <= 255 && (forall|i: int|
        0 <= i < s.len() ==> 'a' <= #[trigger] s[i] <= 'z' || '0' <= s[i] <= '9') {
        assert(s[0] != '.' && s[s.len() - 1] != '.');
        assert forall|i: int| !dotdot_at(s, i) by {
            if dotdot_at(s, i) {
                assert(s[i] == '.');
            }
        }
        assert(!is_separator(s[0]) && !is_separator(s.last()));
    }
}

} // verus!
