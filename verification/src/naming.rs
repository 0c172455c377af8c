//! Names that the pipeline derives from a local file name: the remote
//! object key and the paths of the two scratch artifacts.

use crate::text::append_decimal;
use crate::text::decimal;
use crate::text::has_separator;
use crate::text::is_separator;
use crate::text::is_valid_file_name;
use crate::text::lemma_decimal_injective;
use crate::text::lemma_decimal_is_digits;
use crate::text::valid_file_name;
use vstd::prelude::*;
use vstd::string::*;

verus! {

/// The remote key of a file: the base path, a slash, the file's name.
pub open spec fn remote_key_of(remote_base_path: Seq<char>, file_name: Seq<char>) -> Seq<char> {
    remote_base_path + seq!['/'] + file_name
}

/// Builds the remote object key `{remote_base_path}/{file_name}`.
///
/// The file name is taken verbatim. It is refused, and `None` returned,
/// exactly where it is not a valid file name: a name that is empty, `.`,
/// `..` or holds a path separator could leave the prefix.
pub fn remote_key(remote_base_path: &str, file_name: &str) -> (key: Option<String>)
    ensures
        match key {
            Some(key) => valid_file_name(file_name@) && key@ == remote_key_of(
                remote_base_path@,
                file_name@,
            ),
            None => !valid_file_name(file_name@),
        },
{
    if !is_valid_file_name(file_name) {
        return None;
    }
    proof {
        reveal_strlit("/");
        assert("/"@ =~= seq!['/']);
    }
    let mut key = String::from_str(remote_base_path);
    key.append("/");
    key.append(file_name);
    Some(key)
}

/// The extension of a compressed scratch artifact.
pub open spec fn compressed_extension() -> Seq<char> {
    seq!['.', 'g', 'z']
}

/// The extension of an encrypted scratch artifact.
pub open spec fn encrypted_extension() -> Seq<char> {
    seq!['.', 'e', 'n', 'c']
}

/// The name of a scratch artifact: the file's name, a dot, the numeral of
/// the invocation's token, and the extension.
pub open spec fn scratch_name_of(file_name: Seq<char>, token: nat, extension: Seq<char>) -> Seq<
    char,
> {
    file_name + seq!['.'] + decimal(token) + extension
}

/// `name` inside the directory `dir`: `dir` itself where it is empty or
/// ends in a separator, else `dir` and a slash, then `name`.
pub open spec fn joined(dir: Seq<char>, name: Seq<char>) -> Seq<char> {
    if dir.len() == 0 || is_separator(dir.last()) {
        dir + name
    } else {
        dir + seq!['/'] + name
    }
}

/// The path of a scratch artifact inside the scratch directory.
pub open spec fn scratch_path_of(
    scratch_dir: Seq<char>,
    file_name: Seq<char>,
    token: nat,
    extension: Seq<char>,
) -> Seq<char> {
    joined(scratch_dir, scratch_name_of(file_name, token, extension))
}

/// Tells whether a directory path needs a slash before a name is put behind
/// it.
fn needs_slash(dir: &str) -> (needed: bool)
    ensures
        needed == !(dir@.len() == 0 || is_separator(dir@.last())),
{
    let n = dir.unicode_len();
    if n == 0 {
        false
    } else {
        let last = dir.get_char(n - 1);
        !(last == '/' || last == '\\')
    }
}

/// Builds the path of a scratch artifact.
fn scratch_path(scratch_dir: &str, file_name: &str, token: u64, extension: &str) -> (path: String)
    ensures
        path@ == scratch_path_of(scratch_dir@, file_name@, token as nat, extension@),
{
    proof {
        reveal_strlit("/");
        reveal_strlit(".");
        assert("/"@ =~= seq!['/']);
        assert("."@ =~= seq!['.']);
    }
    let mut path = String::from_str(scratch_dir);
    if needs_slash(scratch_dir) {
        path.append("/");
    }
    path.append(file_name);
    path.append(".");
    append_decimal(&mut path, token);
    path.append(extension);
    assert(path@ =~= scratch_path_of(scratch_dir@, file_name@, token as nat, extension@));
    path
}

/// Builds the path of the compressed scratch artifact of the invocation
/// with the given token.
pub fn compressed_scratch_path(scratch_dir: &str, file_name: &str, token: u64) -> (path: String)
    ensures
        path@ == scratch_path_of(scratch_dir@, file_name@, token as nat, compressed_extension()),
{
    proof {
        reveal_strlit(".gz");
        assert(".gz"@ =~= compressed_extension());
    }
    scratch_path(scratch_dir, file_name, token, ".gz")
}

/// Builds the path of the encrypted scratch artifact of the invocation with
/// the given token.
pub fn encrypted_scratch_path(scratch_dir: &str, file_name: &str, token: u64) -> (path: String)
    ensures
        path@ == scratch_path_of(scratch_dir@, file_name@, token as nat, encrypted_extension()),
{
    proof {
        reveal_strlit(".enc");
        assert(".enc"@ =~= encrypted_extension());
    }
    scratch_path(scratch_dir, file_name, token, ".enc")
}

/// Draws the token of the next invocation from a counter: the counter's
/// value, after which the counter stands one higher. Tokens drawn from one
/// counter are therefore all different. `None`, and the counter unchanged,
/// where the counter has reached its last value.
pub fn next_token(counter: &mut u64) -> (token: Option<u64>)
    ensures
        match token {
            Some(t) => t == *old(counter) && *final(counter) == t + 1,
            None => *old(counter) == u64::MAX && *final(counter) == *old(counter),
        },
{
    if *counter == u64::MAX {
        None
    } else {
        let token = *counter;
        *counter = token + 1;
        Some(token)
    }
}

/// A remote key stays under its prefix: the key of a valid file name is the
/// base path, one slash, and a last component that is the name itself, which
/// holds no separator and is neither `.` nor `..`.
pub proof fn lemma_remote_key_stays_under_prefix(remote_base_path: Seq<char>, file_name: Seq<char>)
    requires
        valid_file_name(file_name),
    ensures
        (remote_base_path + seq!['/']).is_prefix_of(remote_key_of(remote_base_path, file_name)),
        remote_key_of(remote_base_path, file_name).subrange(
            remote_base_path.len() as int + 1,
            remote_key_of(remote_base_path, file_name).len() as int,
        ) == file_name,
{
    let key = remote_key_of(remote_base_path, file_name);
    let prefix = remote_base_path + seq!['/'];
    assert(key.subrange(0, prefix.len() as int) =~= prefix);
    assert(key.subrange(remote_base_path.len() as int + 1, key.len() as int) =~= file_name);
}

/// A scratch artifact stays in the scratch directory: the path of an
/// artifact of a valid file name is the directory followed by one component
/// that holds no path separator.
pub proof fn lemma_scratch_path_stays_in_dir(
    scratch_dir: Seq<char>,
    file_name: Seq<char>,
    token: nat,
)
    requires
        valid_file_name(file_name),
    ensures
        !has_separator(scratch_name_of(file_name, token, compressed_extension())),
        !has_separator(scratch_name_of(file_name, token, encrypted_extension())),
        scratch_dir.is_prefix_of(
            scratch_path_of(scratch_dir, file_name, token, compressed_extension()),
        ),
        scratch_dir.is_prefix_of(
            scratch_path_of(scratch_dir, file_name, token, encrypted_extension()),
        ),
{
    lemma_decimal_is_digits(token);
    let d = decimal(token);
    let gz = scratch_name_of(file_name, token, compressed_extension());
    let enc = scratch_name_of(file_name, token, encrypted_extension());
    let n = file_name.len() as int;
    assert forall|i: int| 0 <= i < gz.len() implies !is_separator(#[trigger] gz[i]) by {
        if i < n {
            assert(gz[i] == file_name[i]);
        } else if i == n {
        } else if i < n + 1 + d.len() {
            assert(gz[i] == d[i - n - 1]);
        } else {
            assert(gz[i] == compressed_extension()[i - n - 1 - d.len()]);
        }
    }
    assert forall|i: int| 0 <= i < enc.len() implies !is_separator(#[trigger] enc[i]) by {
        if i < n {
            assert(enc[i] == file_name[i]);
        } else if i == n {
        } else if i < n + 1 + d.len() {
            assert(enc[i] == d[i - n - 1]);
        } else {
            assert(enc[i] == encrypted_extension()[i - n - 1 - d.len()]);
        }
    }
    let gz_path = scratch_path_of(scratch_dir, file_name, token, compressed_extension());
    let enc_path = scratch_path_of(scratch_dir, file_name, token, encrypted_extension());
    assert(gz_path.subrange(0, scratch_dir.len() as int) =~= scratch_dir);
    assert(enc_path.subrange(0, scratch_dir.len() as int) =~= scratch_dir);
}

/// A scratch name tells its file name and its token: two names with the
/// same extension are equal only where both are.
pub proof fn lemma_scratch_name_injective(
    first_name: Seq<char>,
    first_token: nat,
    second_name: Seq<char>,
    second_token: nat,
    extension: Seq<char>,
)
    ensures
        scratch_name_of(first_name, first_token, extension) == scratch_name_of(
            second_name,
            second_token,
            extension,
        ) ==> first_name == second_name && first_token == second_token,
{
    let a = scratch_name_of(first_name, first_token, extension);
    let b = scratch_name_of(second_name, second_token, extension);
    if a == b {
        let d1 = decimal(first_token);
        let d2 = decimal(second_token);
        lemma_decimal_is_digits(first_token);
        lemma_decimal_is_digits(second_token);
        let s1 = first_name + seq!['.'] + d1;
        let s2 = second_name + seq!['.'] + d2;
        assert(s1 =~= a.subrange(0, a.len() - extension.len()));
        assert(s2 =~= b.subrange(0, b.len() - extension.len()));
        assert(s1 == s2);
        let n1 = first_name.len() as int;
        let n2 = second_name.len() as int;
        assert(s1[n1] == '.');
        assert(s2[n2] == '.');
        if n1 < n2 {
            assert(s1[n2] == d1[n2 - n1 - 1]);
            assert(false);
        }
        if n2 < n1 {
            assert(s2[n1] == d2[n1 - n2 - 1]);
            assert(false);
        }
        assert(first_name =~= s1.subrange(0, n1));
        assert(second_name =~= s2.subrange(0, n2));
        assert(d1 =~= s1.subrange(n1 + 1, s1.len() as int));
        assert(d2 =~= s2.subrange(n2 + 1, s2.len() as int));
        lemma_decimal_injective(first_token, second_token);
    }
}

/// Two invocations never share a scratch path: inside one scratch
/// directory, the paths of two invocations with different tokens differ,
/// whatever the files and whichever of the two artifacts.
pub proof fn lemma_scratch_paths_distinct(
    scratch_dir: Seq<char>,
    first_name: Seq<char>,
    first_token: nat,
    second_name: Seq<char>,
    second_token: nat,
)
    requires
        first_token != second_token,
    ensures
        scratch_path_of(scratch_dir, first_name, first_token, compressed_extension())
            != scratch_path_of(scratch_dir, second_name, second_token, compressed_extension()),
        scratch_path_of(scratch_dir, first_name, first_token, encrypted_extension())
            != scratch_path_of(scratch_dir, second_name, second_token, encrypted_extension()),
        scratch_path_of(scratch_dir, first_name, first_token, compressed_extension())
            != scratch_path_of(scratch_dir, second_name, second_token, encrypted_extension()),
{
    let gz = compressed_extension();
    let enc = encrypted_extension();
    lemma_joined_injective(
        scratch_dir,
        scratch_name_of(first_name, first_token, gz),
        scratch_name_of(second_name, second_token, gz),
    );
    lemma_joined_injective(
        scratch_dir,
        scratch_name_of(first_name, first_token, enc),
        scratch_name_of(second_name, second_token, enc),
    );
    lemma_joined_injective(
        scratch_dir,
        scratch_name_of(first_name, first_token, gz),
        scratch_name_of(second_name, second_token, enc),
    );
    lemma_scratch_name_injective(first_name, first_token, second_name, second_token, gz);
    lemma_scratch_name_injective(first_name, first_token, second_name, second_token, enc);
    let a = scratch_name_of(first_name, first_token, gz);
    let b = scratch_name_of(second_name, second_token, enc);
    assert(a.last() == 'z');
    assert(b.last() == 'c');
}

/// Inside one directory, different names are different paths.
proof fn lemma_joined_injective(dir: Seq<char>, first: Seq<char>, second: Seq<char>)
    ensures
        joined(dir, first) == joined(dir, second) ==> first == second,
{
    let a = joined(dir, first);
    let b = joined(dir, second);
    if a == b {
        let k = a.len() - first.len();
        assert(first =~= a.subrange(k, a.len() as int));
        assert(second =~= b.subrange(k, b.len() as int));
    }
}

} // verus!
