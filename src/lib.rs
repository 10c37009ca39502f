//! Helpers for writing plugins of BitBar-style macOS menu bar apps (BitBar,
//! SwiftBar, xbar): a model of a plugin's menu, and its rendering into the
//! line-oriented text that the host app reads from the plugin.
use vstd::prelude::*;

pub mod attr;
pub mod attr_list;
pub mod flavor;
pub mod laws;
pub mod text;

use crate::attr::{color_text, parse_url, Color, Command, ConversionError, Extra, Image, parsed_url, views};
use crate::attr_list::{
    attrs_text, lemma_sorted_entries, sorted_entries, to_map, AttrList,
};
use crate::text::{chars_of, decimal, prefix_lines, push_char, push_decimal, push_prefixed_lines};

verus! {

/// A menu item that is not a separator.
#[derive(Debug)]
pub struct ContentItem {
    /// The text of the item. Each `|` shows as `¦`, and each newline as a space.
    pub text: String,
    /// An alternate item or a submenu.
    pub extra: Option<Extra>,
    /// The `href=` attribute: a URL, as the `url` crate serializes it.
    pub href: Option<String>,
    /// The `color=` attribute.
    pub color: Option<Color>,
    /// The `font=` attribute.
    pub font: Option<String>,
    /// The `size=` attribute.
    pub size: Option<usize>,
    /// The `bash=`, `param1=`, ... and `terminal=` attributes.
    pub command: Option<Command>,
    /// The `refresh=` attribute.
    pub refresh: bool,
    /// The `image=` or `templateImage=` attribute.
    pub image: Option<Image>,
    /// Attributes of one flavor of host.
    pub flavor_attrs: Option<flavor::Attrs>,
}

/// A menu item: a content item or a separator.
#[derive(Debug)]
pub enum MenuItem {
    Content(ContentItem),
    Sep,
}

/// A menu: its items, from top to bottom.
#[derive(Debug)]
pub struct Menu(pub Vec<MenuItem>);

/// The text of an item as it stands on its line: `|` becomes `¦` and a newline
/// becomes a space.
pub open spec fn escape_text(s: Seq<char>) -> Seq<char> {
    s.map_values(|c: char| if c == '|' { '¦' } else if c == '\n' { ' ' } else { c })
}

/// The name of the `i`-th argument of a command, counting from one.
pub open spec fn param_name(i: nat) -> Seq<char> {
    "param"@ + decimal(i)
}

/// `m` with `paramN=` set to the `N`-th element of `ps`, for each `N`.
pub open spec fn add_params(m: Map<Seq<char>, Seq<char>>, ps: Seq<Seq<char>>) -> Map<Seq<char>, Seq<char>>
    decreases ps.len(),
{
    if ps.len() == 0 {
        m
    } else {
        add_params(m, ps.drop_last()).insert(param_name(ps.len()), ps.last())
    }
}

/// `m` with the attributes of a command: `bash=`, its arguments, and
/// `terminal=false` where it runs without a terminal window.
pub open spec fn add_command(m: Map<Seq<char>, Seq<char>>, c: Command) -> Map<Seq<char>, Seq<char>> {
    let with_args = add_params(m.insert("bash"@, c.params.cmd@), views(c.params.params@));
    if c.terminal {
        with_args
    } else {
        with_args.insert("terminal"@, "false"@)
    }
}

/// The attributes of an item's line, by name; `is_alt` marks an alternate item.
pub open spec fn attr_map(item: ContentItem, is_alt: bool) -> Map<Seq<char>, Seq<char>> {
    let m0 = Map::<Seq<char>, Seq<char>>::empty();
    let m1 = match item.href {
        Some(h) => m0.insert("href"@, h@),
        None => m0,
    };
    let m2 = match item.color {
        Some(c) => m1.insert("color"@, color_text(c)),
        None => m1,
    };
    let m3 = match item.font {
        Some(f) => m2.insert("font"@, f@),
        None => m2,
    };
    let m4 = match item.size {
        Some(n) => m3.insert("size"@, decimal(n as nat)),
        None => m3,
    };
    let m5 = match item.command {
        Some(c) => add_command(m4, c),
        None => m4,
    };
    let m6 = if item.refresh {
        m5.insert("refresh"@, "true"@)
    } else {
        m5
    };
    let m7 = if is_alt {
        m6.insert("alternate"@, "true"@)
    } else {
        m6
    };
    let m8 = match item.image {
        Some(img) => m7.insert(
            if img.is_template {
                "templateImage"@
            } else {
                "image"@
            },
            img.base64_data@,
        ),
        None => m7,
    };
    match item.flavor_attrs {
        Some(fa) => fa.add_to(m8),
        None => m8,
    }
}

/// The line of an item: its text, then ` |` and its attributes in increasing
/// order of their names where it has any, then a newline.
pub open spec fn item_line(item: ContentItem, is_alt: bool) -> Seq<char> {
    let attrs = sorted_entries(attr_map(item, is_alt));
    escape_text(item.text@) + (if attrs.len() == 0 {
        Seq::<char>::empty()
    } else {
        seq![' ', '|'] + attrs_text(attrs)
    }) + seq!['\n']
}

/// An item rendered: its line, then its alternate item on the lines right
/// below it, or its submenu with every line prefixed by `--`.
pub open spec fn render_item(item: ContentItem, is_alt: bool) -> Seq<char>
    decreases item,
{
    item_line(item, is_alt) + match item.extra {
        Some(Extra::Alternate(alt)) => render_item(*alt, true),
        Some(Extra::Submenu(sub)) => prefix_lines(render_menu(sub)),
        None => Seq::<char>::empty(),
    }
}

/// A separator or an item, rendered.
pub open spec fn render_menu_item(mi: MenuItem) -> Seq<char>
    decreases mi,
{
    match mi {
        MenuItem::Content(c) => render_item(c, false),
        MenuItem::Sep => seq!['-', '-', '-', '\n'],
    }
}

/// Some menu items rendered, one after the other.
pub open spec fn render_items(s: Seq<MenuItem>) -> Seq<char>
    decreases s,
{
    if s.len() == 0 {
        Seq::<char>::empty()
    } else {
        render_items(s.drop_last()) + render_menu_item(s.last())
    }
}

/// A menu rendered.
pub open spec fn render_menu(m: Menu) -> Seq<char>
    decreases m,
{
    render_items(m.0@)
}

/// Appends the text of an item as it stands on its line.
fn push_escaped(out: &mut String, s: &str)
    ensures
        final(out)@ == old(out)@ + escape_text(s@),
{
    for c in it: s.chars()
        invariant
            it.seq() == s@,
            out@ == old(out)@ + escape_text(it.seq().take(it.index() as int)),
    {
        let ghost i = it.index() as int;
        let shown = if c == '|' {
            '¦'
        } else if c == '\n' {
            ' '
        } else {
            c
        };
        push_char(out, shown);
        assert(s@.take(i + 1) == s@.take(i).push(c));
        assert(escape_text(s@.take(i + 1)) =~= escape_text(s@.take(i)).push(shown));
    }
    assert(s@.take(s@.len() as int) == s@);
}

/// Adds `paramN=` for each argument of `c`, the first being `param1=`.
fn add_params_to(list: &mut AttrList, args: &Vec<String>)
    requires
        old(list).wf(),
    ensures
        final(list).wf(),
        to_map(final(list)@) == add_params(to_map(old(list)@), views(args@)),
{
    let ghost base = to_map(list@);
    let ghost ps = views(args@);
    let n = args.len();
    let mut i: usize = 0;
    assert(ps.take(0) =~= Seq::<Seq<char>>::empty());
    while i < n
        invariant
            n == args.len(),
            ps == views(args@),
            i <= n,
            list.wf(),
            to_map(list@) == add_params(base, ps.take(i as int)),
        decreases n - i,
    {
        let mut name = String::from_str("param");
        push_decimal(&mut name, i + 1);
        list.insert(name, args[i].clone());
        proof {
            let t = ps.take(i + 1);
            assert(t.drop_last() =~= ps.take(i as int));
            assert(t.last() == args@[i as int]@);
        }
        i = i + 1;
    }
    assert(ps.take(n as int) =~= ps);
}

impl ContentItem {
    /// An item with the text `text` and no attributes.
    pub fn new(text: String) -> (r: ContentItem)
        ensures
            r.text == text,
            r.extra is None,
            r.href is None,
            r.color is None,
            r.font is None,
            r.size is None,
            r.command is None,
            !r.refresh,
            r.image is None,
            r.flavor_attrs is None,
    {
        ContentItem {
            text,
            extra: None,
            href: None,
            color: None,
            font: None,
            size: None,
            command: None,
            refresh: false,
            image: None,
            flavor_attrs: None,
        }
    }

    /// This item with a submenu of `items`, in place of any alternate item or
    /// earlier submenu.
    pub fn sub(self, items: Vec<MenuItem>) -> (r: ContentItem)
        ensures
            r == (ContentItem { extra: Some(Extra::Submenu(Menu(items))), ..self }),
    {
        let mut item = self;
        item.extra = Some(Extra::Submenu(Menu(items)));
        item
    }

    /// This item with a link to the URL `href`, or the `url` crate's error
    /// where `href` is no URL.
    pub fn href(self, href: &str) -> (r: Result<ContentItem, ConversionError>)
        ensures
            r is Ok <==> parsed_url(href@) is Some,
            r matches Ok(item) ==> item == (ContentItem { href: item.href, ..self }),
            r matches Ok(item) ==> (item.href matches Some(u) && u@ == parsed_url(href@)->0),
            r matches Err(e) ==> e is Url,
    {
        match parse_url(href) {
            Ok(u) => {
                let mut item = self;
                item.href = Some(u);
                Ok(item)
            },
            Err(e) => Err(ConversionError::Url(e)),
        }
    }

    /// This item with the text color `color`.
    pub fn color(self, color: Color) -> (r: ContentItem)
        ensures
            r == (ContentItem { color: Some(color), ..self }),
    {
        let mut item = self;
        item.color = Some(color);
        item
    }

    /// This item with the font `font`.
    pub fn font(self, font: String) -> (r: ContentItem)
        ensures
            r == (ContentItem { font: Some(font), ..self }),
    {
        let mut item = self;
        item.font = Some(font);
        item
    }

    /// This item with the font size `size`.
    pub fn size(self, size: usize) -> (r: ContentItem)
        ensures
            r == (ContentItem { size: Some(size), ..self }),
    {
        let mut item = self;
        item.size = Some(size);
        item
    }

    /// This item, running `cmd` when clicked.
    pub fn command(self, cmd: Command) -> (r: ContentItem)
        ensures
            r == (ContentItem { command: Some(cmd), ..self }),
    {
        let mut item = self;
        item.command = Some(cmd);
        item
    }

    /// This item, making the host run the plugin again when clicked.
    pub fn refresh(self) -> (r: ContentItem)
        ensures
            r == (ContentItem { refresh: true, ..self }),
    {
        let mut item = self;
        item.refresh = true;
        item
    }

    /// This item with `alt` as its alternate item, shown while the option key
    /// is held, in place of any submenu or earlier alternate item.
    pub fn alt(self, alt: ContentItem) -> (r: ContentItem)
        ensures
            r == (ContentItem { extra: Some(Extra::Alternate(Box::new(alt))), ..self }),
    {
        let mut item = self;
        item.extra = Some(Extra::Alternate(Box::new(alt)));
        item
    }

    /// This item with `img` as a template image, in place of any earlier image.
    pub fn template_image(self, img: Image) -> (r: ContentItem)
        ensures
            r == (ContentItem { image: Some(Image { is_template: true, ..img }), ..self }),
    {
        let mut item = self;
        item.image = Some(Image::template(img));
        item
    }

    /// This item with the image `img`, a template image where `img` is one, in
    /// place of any earlier image.
    pub fn image(self, img: Image) -> (r: ContentItem)
        ensures
            r == (ContentItem { image: Some(img), ..self }),
    {
        let mut item = self;
        item.image = Some(img);
        item
    }

    /// The attributes of this item's line, sorted by name.
    fn attrs(&self, is_alt: bool) -> (r: AttrList)
        ensures
            r.wf(),
            to_map(r@) == attr_map(*self, is_alt),
    {
        let mut list = AttrList::new();
        assert(to_map(list@) =~= Map::<Seq<char>, Seq<char>>::empty());
        if let Some(h) = &self.href {
            list.insert(String::from_str("href"), h.clone());
        }
        if let Some(c) = &self.color {
            list.insert(String::from_str("color"), c.to_string());
        }
        if let Some(f) = &self.font {
            list.insert(String::from_str("font"), f.clone());
        }
        if let Some(n) = self.size {
            let mut v = String::new();
            push_decimal(&mut v, n);
            list.insert(String::from_str("size"), v);
        }
        if let Some(cmd) = &self.command {
            list.insert(String::from_str("bash"), cmd.params.cmd.clone());
            add_params_to(&mut list, &cmd.params.params);
            if !cmd.terminal {
                list.insert(String::from_str("terminal"), String::from_str("false"));
            }
        }
        if self.refresh {
            list.insert(String::from_str("refresh"), String::from_str("true"));
        }
        if is_alt {
            list.insert(String::from_str("alternate"), String::from_str("true"));
        }
        if let Some(img) = &self.image {
            let name = if img.is_template {
                String::from_str("templateImage")
            } else {
                String::from_str("image")
            };
            list.insert(name, img.base64_data.clone());
        }
        if let Some(fa) = &self.flavor_attrs {
            fa.render(&mut list);
        }
        list
    }

    /// Appends this item, rendered; `is_alt` marks an alternate item.
    fn render(&self, out: &mut String, is_alt: bool)
        ensures
            final(out)@ == old(out)@ + render_item(*self, is_alt),
        decreases self,
    {
        let list = self.attrs(is_alt);
        proof {
            lemma_sorted_entries(list@);
        }
        let ghost start = out@;
        push_escaped(out, self.text.as_str());
        if list.len() > 0 {
            push_char(out, ' ');
            push_char(out, '|');
            list.push_to(out);
        }
        push_char(out, '\n');
        assert(out@ == start + item_line(*self, is_alt));
        match &self.extra {
            Some(Extra::Alternate(alt)) => {
                alt.render(out, true);
            },
            Some(Extra::Submenu(sub)) => {
                let mut nested = String::new();
                sub.render(&mut nested);
                let cs = chars_of(nested.as_str());
                push_prefixed_lines(out, &cs);
            },
            None => {},
        }
    }

    /// This item, rendered as the host reads it.
    pub fn to_string(&self) -> (r: String)
        ensures
            r@ == render_item(*self, false),
    {
        let mut out = String::new();
        self.render(&mut out, false);
        out
    }
}

impl MenuItem {
    /// A content item with the text `text` and no attributes.
    pub fn new(text: String) -> (r: MenuItem)
        ensures
            r matches MenuItem::Content(c) && c == (ContentItem {
                text,
                extra: None,
                href: None,
                color: None,
                font: None,
                size: None,
                command: None,
                refresh: false,
                image: None,
                flavor_attrs: None,
            }),
    {
        MenuItem::Content(ContentItem::new(text))
    }

    /// Appends this item, rendered.
    fn render(&self, out: &mut String)
        ensures
            final(out)@ == old(out)@ + render_menu_item(*self),
        decreases self,
    {
        match self {
            MenuItem::Content(c) => c.render(out, false),
            MenuItem::Sep => {
                push_char(out, '-');
                push_char(out, '-');
                push_char(out, '-');
                push_char(out, '\n');
                assert(out@ =~= old(out)@ + seq!['-', '-', '-', '\n']);
            },
        }
    }

    /// This item, rendered as the host reads it.
    pub fn to_string(&self) -> (r: String)
        ensures
            r@ == render_menu_item(*self),
    {
        let mut out = String::new();
        self.render(&mut out);
        out
    }
}

impl Menu {
    /// Adds `item` at the bottom of this menu.
    pub fn push(&mut self, item: MenuItem)
        ensures
            final(self).0@ == old(self).0@.push(item),
    {
        self.0.push(item);
    }

    /// Adds the items of `other` at the bottom of this menu, in order.
    pub fn extend(&mut self, other: Menu)
        ensures
            final(self).0@ == old(self).0@ + other.0@,
    {
        let mut items = other.0;
        self.0.append(&mut items);
    }

    /// Appends this menu, rendered.
    fn render(&self, out: &mut String)
        ensures
            final(out)@ == old(out)@ + render_menu(*self),
        decreases self,
    {
        let n = self.0.len();
        let mut i: usize = 0;
        while i < n
            invariant
                n == self.0.len(),
                i <= n,
                out@ == old(out)@ + render_items(self.0@.take(i as int)),
            decreases n - i,
        {
            self.0[i].render(out);
            assert(self.0@.take(i + 1).drop_last() =~= self.0@.take(i as int));
            i = i + 1;
        }
        assert(self.0@.take(n as int) =~= self.0@);
    }

    /// This menu, rendered as the host reads it: the text that a plugin prints.
    pub fn to_string(&self) -> (r: String)
        ensures
            r@ == render_menu(*self),
    {
        let mut out = String::new();
        self.render(&mut out);
        out
    }
}

impl From<ContentItem> for MenuItem {
    fn from(i: ContentItem) -> MenuItem {
        MenuItem::Content(i)
    }
}

impl vstd::std_specs::convert::FromSpecImpl<ContentItem> for MenuItem {
    open spec fn obeys_from_spec() -> bool {
        true
    }

    open spec fn from_spec(i: ContentItem) -> MenuItem {
        MenuItem::Content(i)
    }
}

/// `mi` is a content item with the text `text` and nothing else.
pub open spec fn is_text_item(mi: MenuItem, text: Seq<char>) -> bool {
    &&& mi matches MenuItem::Content(c)
    &&& c.text@ == text
    &&& c.extra is None && c.href is None && c.color is None && c.font is None && c.size is None
    &&& c.command is None && !c.refresh && c.image is None && c.flavor_attrs is None
}

/// The first item of a menu that reports an error: the text `?`, with
/// `error_template_image` as its template image where one is given.
pub open spec fn is_error_header(mi: MenuItem, error_template_image: Option<Image>) -> bool {
    &&& mi matches MenuItem::Content(c)
    &&& c.text@ == "?"@
    &&& c.extra is None && c.href is None && c.color is None && c.font is None && c.size is None
    &&& c.command is None && !c.refresh && c.flavor_attrs is None
    &&& c.image == match error_template_image {
        Some(img) => Some(Image { is_template: true, ..img }),
        None => None,
    }
}

/// What a plugin's `main` may return: a value that turns into its menu.
pub trait MainOutput: Sized {
    /// `items` are the items of the menu for this value.
    spec fn is_output(self, error_template_image: Option<Image>, items: Seq<MenuItem>) -> bool;

    /// The menu for this value; `error_template_image` marks the header of a
    /// menu that reports an error.
    fn main_output(self, error_template_image: Option<Image>) -> (r: Menu)
        ensures
            self.is_output(error_template_image, r.0@),
    ;
}

impl MainOutput for Menu {
    /// A menu is its own output.
    open spec fn is_output(self, error_template_image: Option<Image>, items: Seq<MenuItem>) -> bool {
        items == self.0@
    }

    fn main_output(self, error_template_image: Option<Image>) -> (r: Menu) {
        self
    }
}

impl<T: MainOutput, E: MainOutput> MainOutput for Result<T, E> {
    /// A success gives its own menu. An error gives a header item `?`, a
    /// separator, and then the error's own menu.
    open spec fn is_output(self, error_template_image: Option<Image>, items: Seq<MenuItem>) -> bool {
        match self {
            Ok(x) => x.is_output(error_template_image, items),
            Err(e) => {
                &&& items.len() >= 2
                &&& is_error_header(items[0], error_template_image)
                &&& items[1] is Sep
                &&& e.is_output(None, items.subrange(2, items.len() as int))
            },
        }
    }

    fn main_output(self, error_template_image: Option<Image>) -> (r: Menu) {
        match self {
            Ok(x) => x.main_output(error_template_image),
            Err(e) => {
                let mut header = ContentItem::new(String::from_str("?"));
                if let Some(img) = error_template_image {
                    header = header.template_image(img);
                }
                let mut menu = Menu(Vec::new());
                menu.push(MenuItem::Content(header));
                menu.push(MenuItem::Sep);
                let rest = e.main_output(None);
                let ghost rest_items = rest.0@;
                menu.extend(rest);
                assert(menu.0@.subrange(2, menu.0@.len() as int) =~= rest_items);
                menu
            },
        }
    }
}

} // verus!
