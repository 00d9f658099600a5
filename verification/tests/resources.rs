use hello::resources::Page;

#[test]
fn page_path_prefers_the_current_directory() {
    assert_eq!(Page::choose_path("hello.html", true), "hello.html");
    assert_eq!(Page::choose_path("hello.html", false), "/usr/share/hello/hello.html");
    assert_eq!(Page::choose_path("", false), "/usr/share/hello/");
}

#[test]
fn missing_file_is_looked_up_in_the_system_directory() {
    let name = "no-such-page-7f3a9c.html";
    assert_eq!(Page::lookup_path(name), format!("/usr/share/hello/{}", name));
}

#[test]
fn existing_path_is_returned_as_it_is() {
    assert_eq!(Page::lookup_path("."), ".");
    assert_eq!(Page::lookup_path("/"), "/");
}

#[test]
fn pages_are_named_after_their_files() {
    assert_eq!(Page::Hello.name(), "hello.html");
    assert_eq!(Page::NotFound.name(), "404.html");
}

#[test]
fn pages_have_their_file_names() {
    let hello = Page::Hello.get_path();
    assert!(hello == "hello.html" || hello == "/usr/share/hello/hello.html");
    let missing = Page::NotFound.get_path();
    assert!(missing == "404.html" || missing == "/usr/share/hello/404.html");
}
