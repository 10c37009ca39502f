use bitbar::attr::{Command, Params};
use bitbar::flavor::swiftbar::{PluginNameError, SwiftBar};
use bitbar::flavor::Flavor;
use bitbar::{ContentItem, MainOutput, Menu, MenuItem};

fn s(x: &str) -> String {
    x.to_string()
}

#[test]
fn sizes_render_in_decimal() {
    assert_eq!(ContentItem::new(s("A")).size(0).to_string(), "A | size=0\n");
    assert_eq!(
        ContentItem::new(s("A")).size(usize::MAX).to_string(),
        format!("A | size={}\n", usize::MAX)
    );
}

#[test]
fn values_with_spaces_are_quoted() {
    let params = Params::new(s("/bin/echo"), vec![s("hello world"), s("x")]);
    let item = ContentItem::new(s("E")).command(Command::terminal(params));
    assert_eq!(item.to_string(), "E | bash=/bin/echo param1=\"hello world\" param2=x\n");
}

#[test]
fn empty_text_with_attribute() {
    assert_eq!(ContentItem::new(s("")).refresh().to_string(), " | refresh=true\n");
    assert_eq!(ContentItem::new(s("")).to_string(), "\n");
}

#[test]
fn later_setting_replaces_earlier() {
    let item = ContentItem::new(s("R"))
        .alt(ContentItem::new(s("Alt")))
        .sub(vec![MenuItem::new(s("Sub"))])
        .size(1)
        .size(2);
    assert_eq!(item.to_string(), "R | size=2\n--Sub\n");
}

#[test]
fn submenu_of_alternate_and_separator() {
    let alt = ContentItem::new(s("A|B")).sub(vec![MenuItem::Sep]);
    let item = ContentItem::new(s("Main")).alt(alt);
    assert_eq!(item.to_string(), "Main\nA¦B | alternate=true\n-----\n");
}

#[test]
fn push_and_extend_keep_order() {
    let mut m = Menu(vec![]);
    m.push(MenuItem::new(s("1")));
    m.extend(Menu(vec![MenuItem::Sep, MenuItem::from(ContentItem::new(s("2")))]));
    assert_eq!(m.to_string(), "1\n---\n2\n");
    assert_eq!(MenuItem::Sep.to_string(), "---\n");
}

#[test]
fn build_numbers_that_are_not_numbers() {
    assert!(matches!(Flavor::check(Some("-1")), Flavor::BitBar));
    assert!(matches!(Flavor::check(Some("+")), Flavor::BitBar));
    assert!(matches!(Flavor::check(Some(" 5")), Flavor::BitBar));
    match Flavor::check(Some("0398")) {
        Flavor::SwiftBar(sb) => {
            assert_eq!(sb.build(), 398);
            assert!(!sb.trailing_stream_separator());
        }
        Flavor::BitBar => panic!("expected SwiftBar"),
    }
    assert!(SwiftBar::assumed().trailing_stream_separator());
}

#[test]
fn plugin_name_errors_as_menus() {
    assert_eq!(
        PluginNameError::NoFileName.main_output(None).to_string(),
        "Error checking running SwiftBar plugin name\nno filename in `SWIFTBAR_PLUGIN_PATH` environment variable\n"
    );
    assert_eq!(PluginNameError::NonUtf8FileName.to_string(), "plugin filename is not valid UTF-8");
}

#[test]
fn swiftbar_command_line_and_params_view() {
    let sb = SwiftBar::assumed();
    let p = sb.command(Params::new(s("c"), vec![s("1")]));
    assert_eq!(p.iter(), vec![s("c"), s("1")]);
    let one = sb.command(vec![s("only")]);
    assert_eq!(one.iter(), vec![s("only")]);
}
