use popsicle::elfdeps::parent_dir;
use popsicle::runpath::{expand_tokens, RunPathError, RunPathToken};

#[test]
fn origin_braced_expands_against_binary_directory() {
    let origin = parent_dir("/opt/cc/bin/cc1");
    assert_eq!(origin, "/opt/cc/bin");
    assert_eq!(expand_tokens("${ORIGIN}/../lib", &origin), Ok("/opt/cc/bin/../lib".to_string()));
}

#[test]
fn origin_bare_expands() {
    assert_eq!(expand_tokens("$ORIGIN/lib64", "/usr/bin"), Ok("/usr/bin/lib64".to_string()));
    assert_eq!(expand_tokens("$ORIGIN:$ORIGIN", "/a"), Ok("/a:/a".to_string()));
}

#[test]
fn bare_token_followed_by_letters() {
    assert_eq!(expand_tokens("$ORIGINX", "/a"), Ok("/aX".to_string()));
}

#[test]
fn unclosed_brace_is_literal() {
    assert_eq!(expand_tokens("${ORIGIN", "/a"), Ok("${ORIGIN".to_string()));
}

#[test]
fn text_without_tokens_is_unchanged() {
    assert_eq!(expand_tokens("/usr/local/lib", "/a"), Ok("/usr/local/lib".to_string()));
    assert_eq!(expand_tokens("", "/a"), Ok(String::new()));
    assert_eq!(expand_tokens("$", "/a"), Ok("$".to_string()));
}

#[test]
fn lib_token_is_refused() {
    assert_eq!(
        expand_tokens("/opt/$LIB", "/a"),
        Err(RunPathError::UnsupportedToken(RunPathToken::Lib))
    );
    assert_eq!(
        expand_tokens("${ORIGIN}/${LIB}", "/a"),
        Err(RunPathError::UnsupportedToken(RunPathToken::Lib))
    );
}

#[test]
fn platform_token_is_refused() {
    assert_eq!(
        expand_tokens("${PLATFORM}/x", "/a"),
        Err(RunPathError::UnsupportedToken(RunPathToken::Platform))
    );
    assert_eq!(
        expand_tokens("$PLATFORM", "/a"),
        Err(RunPathError::UnsupportedToken(RunPathToken::Platform))
    );
}

#[test]
fn parent_of_file_in_root_is_root() {
    assert_eq!(parent_dir("/cc1"), "/");
    assert_eq!(parent_dir("/usr/lib/libc.so.6"), "/usr/lib");
}
