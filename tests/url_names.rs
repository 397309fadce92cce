use tauriless::command_to_url;
use tauriless::url::{command_to_async_url, url_name, TAURILESS_ASYNC_PROTOCOL, TAURILESS_PROTOCOL};

#[test]
fn url_name_replaces_every_underscore() {
    assert_eq!(url_name("do_stuff"), "do-stuff");
    assert_eq!(url_name("a_b_c"), "a-b-c");
    assert_eq!(url_name("__x__"), "--x--");
}

#[test]
fn url_name_keeps_names_without_underscores() {
    assert_eq!(url_name("add"), "add");
    assert_eq!(url_name(""), "");
}

#[test]
fn url_name_is_deterministic() {
    assert_eq!(url_name("do_stuff_with_num"), url_name("do_stuff_with_num"));
}

#[test]
fn url_name_keeps_non_ascii_characters() {
    assert_eq!(url_name("größe_ändern"), "größe-ändern");
}

#[test]
fn sync_url_of_command() {
    assert_eq!(command_to_url("do_stuff"), "http://tauiriless.localhost/do-stuff");
    assert_eq!(command_to_url("add"), format!("http://{}.localhost/add", TAURILESS_PROTOCOL));
}

#[test]
fn async_url_of_command() {
    assert_eq!(
        command_to_async_url("do_stuff_with_num"),
        format!("http://{}.localhost/do-stuff-with-num", TAURILESS_ASYNC_PROTOCOL)
    );
    assert_ne!(command_to_async_url("add"), command_to_url("add"));
}
