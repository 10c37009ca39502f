//! Values of a menu item's attributes: colors, commands with their parameters,
//! images, and the alternate item or submenu that an item may carry.
use vstd::prelude::*;
use crate::text::{hex2, push_char, push_hex2};
use crate::{ContentItem, Menu};

verus! {

#[verifier::external_type_specification]
#[verifier::external_body]
pub struct ExColorParseError(css_color_parser::ColorParseError);

#[verifier::external_type_specification]
#[verifier::external_body]
pub struct ExUrlParseError(url::ParseError);

/// The red, green and blue channels that `css_color_parser` reads from a CSS
/// color text, or `None` where it refuses the text.
pub uninterp spec fn parsed_color(s: Seq<char>) -> Option<(u8, u8, u8)>;

/// The serialization of the URL that the `url` crate parses from a text, or
/// `None` where it refuses the text.
pub uninterp spec fn parsed_url(s: Seq<char>) -> Option<Seq<char>>;

/// The standard, padded base64 encoding of some bytes.
pub uninterp spec fn base64_of(b: Seq<u8>) -> Seq<char>;

/// Relies on `css_color_parser::Color`'s `FromStr`: the result depends on the
/// text alone, and an empty text is refused. The alpha channel is dropped.
#[verifier::external_body]
fn parse_css_color(s: &str) -> (r: Result<(u8, u8, u8), css_color_parser::ColorParseError>)
    ensures
        r is Ok <==> parsed_color(s@) is Some,
        r matches Ok(c) ==> parsed_color(s@) == Some(c),
        s@.len() == 0 ==> r is Err,
{
    s.parse::<css_color_parser::Color>().map(|c| (c.r, c.g, c.b))
}

/// Relies on `url::Url::parse` and `Url::as_str`: the result depends on the
/// text alone.
#[verifier::external_body]
pub(crate) fn parse_url(s: &str) -> (r: Result<String, url::ParseError>)
    ensures
        r is Ok <==> parsed_url(s@) is Some,
        r matches Ok(u) ==> parsed_url(s@) == Some(u@),
{
    url::Url::parse(s).map(String::from)
}

/// Relies on `base64::encode`: the standard alphabet, with padding.
#[verifier::external_body]
fn encode_base64(data: &[u8]) -> (r: String)
    ensures
        r@ == base64_of(data@),
{
    base64::encode(data)
}

/// An RGB value.
#[derive(Debug, Clone, Copy, PartialEq, Eq, Structural)]
pub struct Rgb {
    pub r: u8,
    pub g: u8,
    pub b: u8,
}

/// `#rrggbb`, in lower-case hexadecimal.
pub open spec fn rgb_text(c: Rgb) -> Seq<char> {
    seq!['#'] + hex2(c.r) + hex2(c.g) + hex2(c.b)
}

fn push_rgb(out: &mut String, c: Rgb)
    ensures
        final(out)@ == old(out)@ + rgb_text(c),
{
    push_char(out, '#');
    push_hex2(out, c.r);
    push_hex2(out, c.g);
    push_hex2(out, c.b);
}

/// A text color: one value for the light system theme, and optionally one for
/// the dark theme, which otherwise uses `light` as well.
#[derive(Debug, Clone, Copy, PartialEq, Eq, Structural)]
pub struct Color {
    pub light: Rgb,
    pub dark: Option<Rgb>,
}

/// A color as the `color=` attribute gives it: `#rrggbb`, followed by
/// `,#rrggbb` for the dark theme where one is set.
pub open spec fn color_text(c: Color) -> Seq<char> {
    match c.dark {
        Some(d) => rgb_text(c.light) + seq![','] + rgb_text(d),
        None => rgb_text(c.light),
    }
}

/// An error in converting a value into an attribute.
#[derive(Debug)]
pub enum ConversionError {
    /// The text is not a CSS color.
    Color(css_color_parser::ColorParseError),
    /// The text is not a URL.
    Url(url::ParseError),
}

impl Color {
    /// The same color in both themes.
    pub fn from_rgb(r: u8, g: u8, b: u8) -> (c: Color)
        ensures
            c == (Color { light: Rgb { r, g, b }, dark: None }),
    {
        Color { light: Rgb { r, g, b }, dark: None }
    }

    /// Parses a CSS color (a name, `#rgb`, `#rrggbb`, `rgb(..)`, `hsl(..)` and
    /// their alpha forms); the alpha channel is ignored.
    pub fn from_str(s: &str) -> (r: Result<Color, ConversionError>)
        ensures
            r is Ok <==> parsed_color(s@) is Some,
            r matches Ok(c) ==> ({
                let (red, green, blue) = parsed_color(s@)->0;
                c == Color { light: Rgb { r: red, g: green, b: blue }, dark: None }
            }),
            r matches Err(e) ==> e is Color,
    {
        match parse_css_color(s) {
            Ok((r, g, b)) => Ok(Color::from_rgb(r, g, b)),
            Err(e) => Err(ConversionError::Color(e)),
        }
    }

    /// The value of the `color=` attribute.
    pub fn to_string(&self) -> (r: String)
        ensures
            r@ == color_text(*self),
    {
        let mut out = String::new();
        push_rgb(&mut out, self.light);
        match self.dark {
            Some(d) => {
                push_char(&mut out, ',');
                push_rgb(&mut out, d);
            },
            None => {},
        }
        out
    }
}

/// The largest number of elements, the command included, that the classic
/// BitBar app accepts for `bash=`.
pub const MAX_BITBAR_PARAMS: usize = 6;

/// A command and its arguments.
#[derive(Debug)]
pub struct Params {
    pub cmd: String,
    pub params: Vec<String>,
}

/// The views of some strings.
pub open spec fn views(v: Seq<String>) -> Seq<Seq<char>> {
    v.map_values(|s: String| s@)
}

impl View for Params {
    type V = Seq<Seq<char>>;

    /// The command, then its arguments.
    open spec fn view(&self) -> Seq<Seq<char>> {
        seq![self.cmd@] + views(self.params@)
    }
}

impl Params {
    /// The command `cmd` with the arguments `params`.
    pub fn new(cmd: String, params: Vec<String>) -> (r: Params)
        ensures
            r.cmd == cmd,
            r.params == params,
    {
        Params { cmd, params }
    }

    /// A command line of one to six elements, the command first: the limit of
    /// the classic BitBar app. Longer or empty lines are handed back.
    pub fn try_from(v: Vec<String>) -> (r: Result<Params, Vec<String>>)
        ensures
            r is Ok <==> 1 <= v.len() <= MAX_BITBAR_PARAMS,
            r matches Ok(p) ==> p@ == views(v@),
            r matches Err(e) ==> e == v,
    {
        if v.len() < 1 || v.len() > MAX_BITBAR_PARAMS {
            return Err(v);
        }
        Ok(Params::from_vec(v))
    }

    /// A command line of any nonzero length, the command first.
    pub fn from_vec(v: Vec<String>) -> (r: Params)
        requires
            v.len() >= 1,
        ensures
            r@ == views(v@),
    {
        let mut v = v;
        let ghost orig = v@;
        let cmd = v.remove(0);
        assert(views(orig) =~= seq![cmd@] + views(v@));
        Params { cmd, params: v }
    }

    /// The command and its arguments, in order.
    pub fn iter(&self) -> (r: Vec<String>)
        ensures
            views(r@) == self@,
    {
        let mut r: Vec<String> = Vec::new();
        r.push(self.cmd.clone());
        let n = self.params.len();
        let mut i: usize = 0;
        while i < n
            invariant
                n == self.params.len(),
                i <= n,
                views(r@) == seq![self.cmd@] + views(self.params@.take(i as int)),
            decreases n - i,
        {
            let ghost before = r@;
            r.push(self.params[i].clone());
            proof {
                assert(views(r@) =~= views(before).push(self.params@[i as int]@));
                assert(views(self.params@.take(i + 1)) =~= views(self.params@.take(i as int)).push(
                    self.params@[i as int]@,
                ));
            }
            i = i + 1;
        }
        assert(self.params@.take(n as int) == self.params@);
        r
    }
}

/// A command to run when a menu item is clicked, and whether it runs in a
/// visible terminal window.
#[derive(Debug)]
pub struct Command {
    pub params: Params,
    pub terminal: bool,
}

impl Command {
    /// The command, run in a terminal window.
    pub fn terminal(args: Params) -> (r: Command)
        ensures
            r.params == args,
            r.terminal,
    {
        Command { params: args, terminal: true }
    }

    /// The command line `args`, run without a terminal window, within the
    /// classic BitBar app's limit on parameters.
    pub fn try_from(args: Vec<String>) -> (r: Result<Command, Vec<String>>)
        ensures
            r is Ok <==> 1 <= args.len() <= MAX_BITBAR_PARAMS,
            r matches Ok(c) ==> c.params@ == views(args@) && !c.terminal,
            r matches Err(e) ==> e == args,
    {
        match Params::try_from(args) {
            Ok(params) => Ok(Command { params, terminal: false }),
            Err(e) => Err(e),
        }
    }

    /// As `try_from`, run in a terminal window.
    pub fn try_terminal(args: Vec<String>) -> (r: Result<Command, Vec<String>>)
        ensures
            r is Ok <==> 1 <= args.len() <= MAX_BITBAR_PARAMS,
            r matches Ok(c) ==> c.params@ == views(args@) && c.terminal,
            r matches Err(e) ==> e == args,
    {
        match Params::try_from(args) {
            Ok(params) => Ok(Command { params, terminal: true }),
            Err(e) => Err(e),
        }
    }
}

impl From<Params> for Command {
    /// The command, run without a terminal window.
    fn from(params: Params) -> Command {
        Command { params, terminal: false }
    }
}

impl vstd::std_specs::convert::FromSpecImpl<Params> for Command {
    open spec fn obeys_from_spec() -> bool {
        true
    }

    open spec fn from_spec(params: Params) -> Command {
        Command { params, terminal: false }
    }
}

/// An image: base64-encoded data, and whether the host tints it to match the
/// system theme (a template image).
#[derive(Debug, Clone)]
pub struct Image {
    pub base64_data: String,
    pub is_template: bool,
}

impl Image {
    /// The same image, as a template image.
    pub fn template(img: Image) -> (r: Image)
        ensures
            r.base64_data == img.base64_data,
            r.is_template,
    {
        let mut result = img;
        result.is_template = true;
        result
    }

    /// A non-template image from the bytes of a PNG file.
    pub fn from_png(data: &[u8]) -> (r: Image)
        ensures
            r.base64_data@ == base64_of(data@),
            !r.is_template,
    {
        Image { base64_data: encode_base64(data), is_template: false }
    }
}

impl From<String> for Image {
    /// A non-template image from data that is already base64-encoded.
    fn from(base64_data: String) -> Image {
        Image { base64_data, is_template: false }
    }
}

impl vstd::std_specs::convert::FromSpecImpl<String> for Image {
    open spec fn obeys_from_spec() -> bool {
        true
    }

    open spec fn from_spec(base64_data: String) -> Image {
        Image { base64_data, is_template: false }
    }
}

/// What a menu item may carry besides its own line: an alternate item, shown
/// while the option key is held, or a submenu.
#[derive(Debug)]
pub enum Extra {
    Alternate(Box<ContentItem>),
    Submenu(Menu),
}

} // verus!
