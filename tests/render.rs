use bitbar::attr::{Color, Command, ConversionError, Image, Params};
use bitbar::flavor::swiftbar::{Notification, NotificationCommandError, PluginNameError};
use bitbar::flavor::{Flavor, SwiftBar};
use bitbar::{ContentItem, MainOutput, Menu, MenuItem};

fn s(x: &str) -> String {
    x.to_string()
}

fn strings(xs: &[&str]) -> Vec<String> {
    xs.iter().map(|x| x.to_string()).collect()
}

fn render(items: Vec<MenuItem>) -> String {
    Menu(items).to_string()
}

#[test]
fn empty_menu_renders_empty() {
    assert_eq!(render(vec![]), "");
}

#[test]
fn plain_item_has_no_separator() {
    assert_eq!(render(vec![MenuItem::new(s("Hello"))]), "Hello\n");
}

#[test]
fn pipes_and_newlines_in_text_are_replaced() {
    let out = render(vec![MenuItem::new(s("a|b\nc"))]);
    assert_eq!(out, "a¦b c\n");
    let item = ContentItem::new(s("x|y\nz")).refresh();
    let line = item.to_string();
    let text = line.split(" |").next().unwrap();
    assert!(!text.contains('|') && !text.contains('\n'));
    assert_eq!(line, "x¦y z | refresh=true\n");
}

#[test]
fn separator_renders_three_dashes() {
    assert_eq!(render(vec![MenuItem::new(s("A")), MenuItem::Sep, MenuItem::new(s("B"))]), "A\n---\nB\n");
}

#[test]
fn command_without_terminal_emits_terminal_false() {
    let params = Params::new(s("cmd"), strings(&["a", "b"]));
    let item = ContentItem::new(s("Run")).command(Command::from(params));
    assert_eq!(item.to_string(), "Run | bash=cmd param1=a param2=b terminal=false\n");
}

#[test]
fn command_in_terminal_omits_terminal() {
    let params = Params::new(s("cmd"), strings(&["a", "b"]));
    let item = ContentItem::new(s("Run")).command(Command::terminal(params));
    assert_eq!(item.to_string(), "Run | bash=cmd param1=a param2=b\n");
}

#[test]
fn params_from_command_line_round_trip() {
    let cmd = Command::try_from(strings(&["cmd", "a", "b"])).unwrap();
    assert!(!cmd.terminal);
    assert_eq!(cmd.params.iter(), strings(&["cmd", "a", "b"]));
    let item = ContentItem::new(s("Run")).command(cmd);
    assert_eq!(item.to_string(), "Run | bash=cmd param1=a param2=b terminal=false\n");
}

#[test]
fn params_limit_of_six() {
    assert!(Params::try_from(strings(&["c", "1", "2", "3", "4", "5"])).is_ok());
    let seven = strings(&["c", "1", "2", "3", "4", "5", "6"]);
    assert_eq!(Params::try_from(seven.clone()).unwrap_err(), seven);
    assert!(Params::try_from(vec![]).is_err());
    assert!(Command::try_terminal(strings(&["c"])).unwrap().terminal);
}

#[test]
fn font_with_space_is_quoted() {
    let item = ContentItem::new(s("Link"))
        .href("https://example.com/")
        .unwrap()
        .font(s("Menlo Bold"));
    assert_eq!(item.to_string(), "Link | font=\"Menlo Bold\" href=https://example.com/\n");
}

#[test]
fn href_is_normalized_and_invalid_is_refused() {
    let item = ContentItem::new(s("L")).href("HTTPS://Example.COM").unwrap();
    assert_eq!(item.href.as_deref(), Some("https://example.com/"));
    assert!(matches!(ContentItem::new(s("L")).href("not a url"), Err(ConversionError::Url(_))));
}

#[test]
fn submenu_one_level() {
    let item = ContentItem::new(s("Parent")).sub(vec![MenuItem::new(s("Child"))]);
    assert_eq!(render(vec![MenuItem::Content(item)]), "Parent\n--Child\n");
}

#[test]
fn submenu_two_levels() {
    let inner = ContentItem::new(s("Middle")).sub(vec![MenuItem::new(s("Inner"))]);
    let outer = ContentItem::new(s("Outer")).sub(vec![MenuItem::Content(inner)]);
    assert_eq!(outer.to_string(), "Outer\n--Middle\n----Inner\n");
}

#[test]
fn submenu_separator_and_carriage_return() {
    let item = ContentItem::new(s("P")).sub(vec![MenuItem::new(s("a\r")), MenuItem::Sep]);
    assert_eq!(item.to_string(), "P\n--a\n-----\n");
}

#[test]
fn alternate_item_follows_its_primary() {
    let item = ContentItem::new(s("Primary")).alt(ContentItem::new(s("Secondary")));
    assert_eq!(item.to_string(), "Primary\nSecondary | alternate=true\n");
    let item = ContentItem::new(s("P")).size(10).alt(ContentItem::new(s("S")).refresh());
    assert_eq!(item.to_string(), "P | size=10\nS | alternate=true refresh=true\n");
}

#[test]
fn rendering_twice_is_identical() {
    let make = || {
        Menu(vec![
            MenuItem::Content(ContentItem::new(s("T")).size(12).refresh().font(s("Menlo"))),
            MenuItem::Sep,
        ])
    };
    let m = make();
    assert_eq!(m.to_string(), m.to_string());
    assert_eq!(m.to_string(), "T | font=Menlo refresh=true size=12\n---\n");
}

#[test]
fn colors_render_as_hex() {
    let c = Color::from_str("#ff8000").unwrap();
    assert_eq!(c.to_string(), "#ff8000");
    assert_eq!(Color::from_str("red").unwrap().to_string(), "#ff0000");
    assert_eq!(Color::from_rgb(1, 2, 255).to_string(), "#0102ff");
    assert!(matches!(Color::from_str("no color"), Err(ConversionError::Color(_))));
    assert!(Color::from_str("").is_err());
    let sb = SwiftBar::assumed();
    let themed = sb.themed_color(Color::from_rgb(255, 255, 255), Color::from_rgb(0, 0, 0));
    assert_eq!(themed.to_string(), "#ffffff,#000000");
    let item = ContentItem::new(s("C")).color(themed);
    assert_eq!(item.to_string(), "C | color=#ffffff,#000000\n");
}

#[test]
fn images_and_template_images() {
    let img = Image::from(s("abc"));
    assert_eq!(ContentItem::new(s("I")).image(img.clone()).to_string(), "I | image=abc\n");
    assert_eq!(ContentItem::new(s("I")).template_image(img).to_string(), "I | templateImage=abc\n");
    let png = Image::from_png(b"hi");
    assert_eq!(png.base64_data, "aGk=");
    assert!(!png.is_template);
    assert!(Image::template(png).is_template);
}

#[test]
fn many_params_sort_by_name() {
    let sb = SwiftBar::assumed();
    let mut line = vec![s("c")];
    for i in 1..=11 {
        line.push(format!("a{}", i));
    }
    let params = sb.command(line);
    let item = ContentItem::new(s("X")).command(Command::terminal(params));
    assert_eq!(
        item.to_string(),
        "X | bash=c param1=a1 param10=a10 param11=a11 param2=a2 param3=a3 param4=a4 param5=a5 param6=a6 param7=a7 param8=a8 param9=a9\n"
    );
}

#[test]
fn flavor_from_build_number() {
    match Flavor::check(Some("402")) {
        Flavor::SwiftBar(sb) => assert_eq!(sb.build(), 402),
        Flavor::BitBar => panic!("expected SwiftBar"),
    }
    match Flavor::check(Some("+7")) {
        Flavor::SwiftBar(sb) => assert_eq!(sb.build(), 7),
        Flavor::BitBar => panic!("expected SwiftBar"),
    }
    assert!(matches!(Flavor::check(Some("abc")), Flavor::BitBar));
    assert!(matches!(Flavor::check(Some("")), Flavor::BitBar));
    assert!(matches!(Flavor::check(Some("99999999999999999999999")), Flavor::BitBar));
    assert!(matches!(Flavor::check(None), Flavor::BitBar));
    assert_eq!(Flavor::check(None).to_string(), "BitBar");
    assert_eq!(Flavor::check(Some("1")).to_string(), "SwiftBar");
    assert_eq!(SwiftBar::assumed().build(), 402);
}

#[test]
fn sf_image_attribute() {
    let sb = SwiftBar::assumed();
    let mut item = ContentItem::new(s("X"));
    sb.sf_image(&mut item, s("star"));
    assert_eq!(item.to_string(), "X | sfimage=star\n");
}

#[test]
fn error_output_has_header_and_separator() {
    let r: Result<Menu, Menu> = Err(Menu(vec![MenuItem::new(s("boom"))]));
    assert_eq!(r.main_output(None).to_string(), "?\n---\nboom\n");
    let r: Result<Menu, Menu> = Err(Menu(vec![MenuItem::new(s("boom"))]));
    let out = r.main_output(Some(Image::from(s("abc"))));
    assert_eq!(out.to_string(), "? | templateImage=abc\n---\nboom\n");
    let ok: Result<Menu, Menu> = Ok(Menu(vec![MenuItem::new(s("fine"))]));
    assert_eq!(ok.main_output(None).to_string(), "fine\n");
    let e: Result<Menu, PluginNameError> = Err(PluginNameError::Env);
    assert_eq!(
        e.main_output(None).to_string(),
        "?\n---\nError checking running SwiftBar plugin name\nmissing `SWIFTBAR_PLUGIN_PATH` environment variable\n"
    );
}

#[test]
fn notification_url() {
    let sb = SwiftBar::assumed();
    let n = Notification::new(sb, s("x.1m.o")).title(s("Hi there")).silent();
    assert_eq!(n.into_url().unwrap(), "swiftbar://notify?plugin=x.1m.o&title=Hi+there&silent=true");
    let n = Notification::new(sb, s("p")).command(strings(&["c", "a"])).unwrap();
    assert_eq!(n.into_url().unwrap(), "swiftbar://notify?plugin=p&bash=c&param1=a&terminal=false");
    let old = SwiftBar::check(Some("399")).unwrap();
    assert!(matches!(
        Notification::new(old, s("p")).command(strings(&["c"])),
        Err(NotificationCommandError::UnsupportedSwiftBarVersion)
    ));
}
