//! Features of SwiftBar.
use vstd::prelude::*;
use crate::attr::{parse_url, parsed_url, views, Color, Command, ConversionError, Params, Rgb, MAX_BITBAR_PARAMS};
use crate::text::push_decimal;
use crate::param_name;
use crate::attr_list::{to_map, AttrList};
use crate::text::chars_of;
use crate::{is_text_item, ContentItem, MainOutput, Menu, MenuItem};

verus! {

/// The highest SwiftBar build number whose features this library knows.
pub const MAX_BUILD: usize = 402;

/// `c` is a decimal digit.
pub open spec fn is_decimal_digit(c: char) -> bool {
    '0' <= c && c <= '9'
}

/// The value of a string of decimal digits.
pub open spec fn digits_value(s: Seq<char>) -> nat
    decreases s.len(),
{
    if s.len() == 0 {
        0
    } else {
        digits_value(s.drop_last()) * 10 + (s.last() as nat - '0' as nat) as nat
    }
}

/// Every character of `d` is a decimal digit.
pub open spec fn all_digits(d: Seq<char>) -> bool {
    forall|i: int| 0 <= i < d.len() ==> is_decimal_digit(#[trigger] d[i])
}

/// `s` without a leading `+`.
pub open spec fn unsigned_part(s: Seq<char>) -> Seq<char> {
    if s.len() > 0 && s[0] == '+' {
        s.drop_first()
    } else {
        s
    }
}

/// The number that `str::parse::<usize>` reads from `s`: an optional `+`, then
/// one or more decimal digits whose value fits in a `usize`.
pub open spec fn parsed_usize(s: Seq<char>) -> Option<nat> {
    let d = unsigned_part(s);
    if d.len() > 0 && all_digits(d) && digits_value(d) <= usize::MAX {
        Some(digits_value(d))
    } else {
        None
    }
}

proof fn lemma_digits_value_grows(s: Seq<char>, i: int)
    requires
        0 <= i <= s.len(),
        forall|j: int| 0 <= j < s.len() ==> is_decimal_digit(#[trigger] s[j]),
    ensures
        digits_value(s.take(i)) <= digits_value(s),
    decreases s.len() - i,
{
    if i < s.len() {
        lemma_digits_value_grows(s, i + 1);
        assert(s.take(i + 1).drop_last() == s.take(i));
    } else {
        assert(s.take(i) == s);
    }
}

/// Reads a number as `str::parse::<usize>` does.
pub fn parse_usize(s: &str) -> (r: Option<usize>)
    ensures
        r matches Some(n) ==> parsed_usize(s@) == Some(n as nat),
        r is None ==> parsed_usize(s@) is None,
{
    let cs = chars_of(s);
    let start: usize = if cs.len() > 0 && cs[0] == '+' {
        1
    } else {
        0
    };
    let ghost d = cs@.subrange(start as int, cs@.len() as int);
    assert(d == unsigned_part(s@));
    if start >= cs.len() {
        return None;
    }
    let mut v: usize = 0;
    let mut i: usize = start;
    while i < cs.len()
        invariant
            start <= i <= cs.len(),
            cs@ == s@,
            d == cs@.subrange(start as int, cs@.len() as int),
            d == unsigned_part(s@),
            forall|j: int| start <= j < i ==> is_decimal_digit(#[trigger] cs@[j]),
            v as nat == digits_value(d.take(i - start)),
        decreases cs.len() - i,
    {
        let c = cs[i];
        if !('0' <= c && c <= '9') {
            assert(!is_decimal_digit(d[i - start]));
            assert(!all_digits(d));
            return None;
        }
        let digit = (c as u32 - '0' as u32) as usize;
        assert(d.take(i - start + 1).drop_last() == d.take(i - start));
        assert(d.take(i - start + 1).last() == c);
        match v.checked_mul(10) {
            Some(t) => match t.checked_add(digit) {
                Some(w) => {
                    v = w;
                },
                None => {
                    proof {
                        lemma_value_overflows(d, i - start + 1);
                    }
                    return None;
                },
            },
            None => {
                proof {
                    lemma_value_overflows(d, i - start + 1);
                }
                return None;
            },
        }
        i = i + 1;
    }
    assert(d.take(d.len() as int) == d);
    Some(v)
}

/// Where a prefix of digits is too large, so is the whole.
proof fn lemma_value_overflows(d: Seq<char>, k: int)
    requires
        0 < k <= d.len(),
        digits_value(d.take(k)) > usize::MAX,
    ensures
        parsed_usize_digits_fail(d),
{
    if all_digits(d) {
        lemma_digits_value_grows(d, k);
    }
}

/// `d` is not a run of digits of a value that fits in a `usize`.
pub open spec fn parsed_usize_digits_fail(d: Seq<char>) -> bool {
    !(all_digits(d) && digits_value(d) <= usize::MAX)
}

/// The first SwiftBar build that reads a streamed menu's separator after the
/// menu rather than before it.
pub const TRAILING_STREAM_SEPARATOR_BUILD: usize = 399;

/// A handle on SwiftBar's own features, for the SwiftBar build that runs the
/// plugin.
#[derive(Debug, Clone, Copy)]
pub struct SwiftBar {
    build: usize,
}

impl SwiftBar {
    /// The build number of the SwiftBar that runs the plugin.
    pub closed spec fn build_number(self) -> nat {
        self.build as nat
    }

    /// The build number of the SwiftBar that runs the plugin.
    pub fn build(&self) -> (r: usize)
        ensures
            r == self.build_number(),
    {
        self.build
    }

    /// The handle for a plugin whose environment holds `swiftbar_build` as the
    /// SwiftBar build number, or `None` where the plugin does not run in
    /// SwiftBar (no such value, or one that is not a number).
    pub fn check(swiftbar_build: Option<&str>) -> (r: Option<SwiftBar>)
        ensures
            swiftbar_build is None ==> r is None,
            swiftbar_build matches Some(b) ==> match parsed_usize(b@) {
                Some(n) => r matches Some(sb) && sb.build_number() == n,
                None => r is None,
            },
    {
        match swiftbar_build {
            Some(b) => match parse_usize(b) {
                Some(build) => Some(SwiftBar { build }),
                None => None,
            },
            None => None,
        }
    }

    /// A command line of any length, which SwiftBar accepts beyond the
    /// classic BitBar app's limit.
    pub fn command<P: IntoParams>(&self, cmd: P) -> (r: Params)
        requires
            cmd.can_convert(),
        ensures
            r@ == cmd.params_view(),
    {
        cmd.into_params(self)
    }

    /// A color that shows as `light` in the light system theme and as `dark`
    /// in the dark one.
    pub fn themed_color(&self, light: Color, dark: Color) -> (r: Color)
        ensures
            r == (Color { light: light.light, dark: Some(dark_value(dark)) }),
    {
        let d = match dark.dark {
            Some(d) => d,
            None => dark.light,
        };
        Color { light: light.light, dark: Some(d) }
    }

    /// Gives `item` the SF Symbols image named `image`.
    pub fn sf_image(&self, item: &mut ContentItem, image: String)
        ensures
            *final(item) == (ContentItem {
                flavor_attrs: Some(super::Attrs::SwiftBar(Attrs { sf_image: Some(image) })),
                ..*old(item)
            }),
    {
        item.flavor_attrs = Some(super::Attrs::SwiftBar(Attrs { sf_image: Some(image) }));
    }

    /// When streaming menus, whether the `~~~` separator follows each menu
    /// (builds from 399 on) rather than preceding it.
    pub fn trailing_stream_separator(&self) -> (r: bool)
        ensures
            r == (self.build_number() >= TRAILING_STREAM_SEPARATOR_BUILD),
    {
        self.build >= TRAILING_STREAM_SEPARATOR_BUILD
    }

    /// A handle on SwiftBar's features without checking that the plugin runs
    /// in SwiftBar: it takes the newest build that this library knows.
    pub fn assumed() -> (r: SwiftBar)
        ensures
            r.build_number() == MAX_BUILD,
    {
        SwiftBar { build: MAX_BUILD }
    }
}

/// The value of a color in the dark system theme.
pub open spec fn dark_value(c: Color) -> Rgb {
    match c.dark {
        Some(d) => d,
        None => c.light,
    }
}

/// A value that makes a command line for SwiftBar, which takes any number of
/// arguments.
pub trait IntoParams: Sized {
    /// This value makes a command line.
    spec fn can_convert(&self) -> bool;

    /// The command and its arguments that this value makes.
    spec fn params_view(&self) -> Seq<Seq<char>>;

    /// The command line of this value.
    fn into_params(self, swiftbar: &SwiftBar) -> (r: Params)
        requires
            self.can_convert(),
        ensures
            r@ == self.params_view(),
    ;
}

impl IntoParams for Params {
    open spec fn can_convert(&self) -> bool {
        true
    }

    open spec fn params_view(&self) -> Seq<Seq<char>> {
        self@
    }

    fn into_params(self, swiftbar: &SwiftBar) -> (r: Params) {
        self
    }
}

impl IntoParams for Vec<String> {
    /// The command first, so at least one element.
    open spec fn can_convert(&self) -> bool {
        self.len() >= 1
    }

    open spec fn params_view(&self) -> Seq<Seq<char>> {
        views(self@)
    }

    fn into_params(self, swiftbar: &SwiftBar) -> (r: Params) {
        Params::from_vec(self)
    }
}

/// Why the name of the running plugin is not known.
#[derive(Debug, Clone, Copy, PartialEq, Eq, Structural)]
pub enum PluginNameError {
    /// The `SWIFTBAR_PLUGIN_PATH` environment variable is not set.
    Env,
    /// The `SWIFTBAR_PLUGIN_PATH` environment variable does not end in a file name.
    NoFileName,
    /// The file name is not valid UTF-8.
    NonUtf8FileName,
}

/// The message of each `PluginNameError`.
pub open spec fn plugin_name_message(e: PluginNameError) -> Seq<char> {
    match e {
        PluginNameError::Env => "missing `SWIFTBAR_PLUGIN_PATH` environment variable"@,
        PluginNameError::NoFileName => "no filename in `SWIFTBAR_PLUGIN_PATH` environment variable"@,
        PluginNameError::NonUtf8FileName => "plugin filename is not valid UTF-8"@,
    }
}

impl PluginNameError {
    /// What went wrong, in words.
    pub fn to_string(&self) -> (r: String)
        ensures
            r@ == plugin_name_message(*self),
    {
        match self {
            PluginNameError::Env => String::from_str("missing `SWIFTBAR_PLUGIN_PATH` environment variable"),
            PluginNameError::NoFileName => String::from_str(
                "no filename in `SWIFTBAR_PLUGIN_PATH` environment variable",
            ),
            PluginNameError::NonUtf8FileName => String::from_str("plugin filename is not valid UTF-8"),
        }
    }
}

impl MainOutput for PluginNameError {
    /// A header line, then the message.
    open spec fn is_output(self, error_template_image: Option<crate::attr::Image>, items: Seq<MenuItem>) -> bool {
        &&& items.len() == 2
        &&& is_text_item(items[0], "Error checking running SwiftBar plugin name"@)
        &&& is_text_item(items[1], plugin_name_message(self))
    }

    fn main_output(self, error_template_image: Option<crate::attr::Image>) -> (r: Menu) {
        let mut menu = Menu(Vec::new());
        menu.push(MenuItem::new(String::from_str("Error checking running SwiftBar plugin name")));
        menu.push(MenuItem::new(self.to_string()));
        menu
    }
}

/// SwiftBar's own attributes of a menu item.
#[derive(Debug)]
pub struct Attrs {
    /// An SF Symbols image, by name.
    pub sf_image: Option<String>,
}

impl Attrs {
    /// `m` with these attributes added.
    pub open spec fn add_to(self, m: Map<Seq<char>, Seq<char>>) -> Map<Seq<char>, Seq<char>> {
        match self.sf_image {
            Some(s) => m.insert("sfimage"@, s@),
            None => m,
        }
    }

    /// Adds these attributes to `list`.
    pub fn render(&self, list: &mut AttrList)
        requires
            old(list).wf(),
        ensures
            final(list).wf(),
            to_map(final(list)@) == self.add_to(to_map(old(list)@)),
    {
        match &self.sf_image {
            Some(s) => list.insert(String::from_str("sfimage"), s.clone()),
            None => {},
        }
    }
}

/// The first SwiftBar build that runs a command when a notification is clicked.
pub const NOTIFICATION_COMMAND_BUILD: usize = 402;

/// The serialization of the URL that `url::Url::parse_with_params` makes of a
/// base URL and query pairs, or `None` where it refuses the base.
pub uninterp spec fn url_with_params(base: Seq<char>, pairs: Seq<(Seq<char>, Seq<char>)>) -> Option<Seq<char>>;

/// The views of some pairs of strings.
pub open spec fn pair_views(v: Seq<(String, String)>) -> Seq<(Seq<char>, Seq<char>)> {
    v.map_values(|e: (String, String)| (e.0@, e.1@))
}

/// Relies on `url::Url::parse_with_params` and `Url::as_str`: the result
/// depends on the base and the pairs alone.
#[verifier::external_body]
fn parse_with_params(base: &str, pairs: &Vec<(String, String)>) -> (r: Result<String, url::ParseError>)
    ensures
        r is Ok <==> url_with_params(base@, pair_views(pairs@)) is Some,
        r matches Ok(u) ==> url_with_params(base@, pair_views(pairs@)) == Some(u@),
{
    url::Url::parse_with_params(base, pairs.iter()).map(String::from)
}

/// Why a command cannot be added to a notification.
#[derive(Debug)]
pub enum NotificationCommandError {
    /// The command line is not one the classic BitBar app takes; it is handed back.
    Command(Vec<String>),
    /// SwiftBar runs commands on a click on a notification only from build 402 on.
    UnsupportedSwiftBarVersion,
}

/// A SwiftBar notification, which SwiftBar shows when asked to open its URL.
#[derive(Debug)]
pub struct Notification {
    pub swiftbar: SwiftBar,
    pub plugin_name: String,
    pub title: Option<String>,
    pub subtitle: Option<String>,
    pub body: Option<String>,
    pub href: Option<String>,
    pub command: Option<Command>,
    pub silent: bool,
}

/// A query pair for an optional value.
pub open spec fn opt_pair(name: Seq<char>, v: Option<String>) -> Seq<(Seq<char>, Seq<char>)> {
    match v {
        Some(x) => seq![(name, x@)],
        None => seq![],
    }
}

/// The query pairs `paramN` of some arguments.
pub open spec fn param_pairs(ps: Seq<Seq<char>>) -> Seq<(Seq<char>, Seq<char>)>
    decreases ps.len(),
{
    if ps.len() == 0 {
        seq![]
    } else {
        param_pairs(ps.drop_last()).push((param_name(ps.len()), ps.last()))
    }
}

/// The query pairs of a command: `bash`, its arguments, and `terminal=false`
/// where it runs without a terminal window.
pub open spec fn command_pairs(c: Option<Command>) -> Seq<(Seq<char>, Seq<char>)> {
    match c {
        Some(c) => seq![("bash"@, c.params.cmd@)] + param_pairs(views(c.params.params@)) + if c.terminal {
            Seq::<(Seq<char>, Seq<char>)>::empty()
        } else {
            seq![("terminal"@, "false"@)]
        },
        None => seq![],
    }
}

/// The query pairs of a notification's URL, in order.
pub open spec fn notification_pairs(n: Notification) -> Seq<(Seq<char>, Seq<char>)> {
    seq![("plugin"@, n.plugin_name@)] + opt_pair("title"@, n.title) + opt_pair("subtitle"@, n.subtitle) + opt_pair(
        "body"@,
        n.body,
    ) + command_pairs(n.command) + opt_pair("href"@, n.href) + if n.silent {
        seq![("silent"@, "true"@)]
    } else {
        Seq::<(Seq<char>, Seq<char>)>::empty()
    }
}

fn push_pair(v: &mut Vec<(String, String)>, name: &str, value: String)
    ensures
        pair_views(final(v)@) == pair_views(old(v)@).push((name@, value@)),
{
    v.push((String::from_str(name), value));
    assert(pair_views(v@) =~= pair_views(old(v)@).push((name@, value@)));
}

fn push_opt_pair(v: &mut Vec<(String, String)>, name: &str, value: &Option<String>)
    ensures
        pair_views(final(v)@) == pair_views(old(v)@) + opt_pair(name@, *value),
{
    match value {
        Some(x) => push_pair(v, name, x.clone()),
        None => {
            assert(pair_views(v@) =~= pair_views(v@) + opt_pair(name@, *value));
        },
    }
}

fn push_command_pairs(v: &mut Vec<(String, String)>, c: &Option<Command>)
    ensures
        pair_views(final(v)@) == pair_views(old(v)@) + command_pairs(*c),
{
    match c {
        Some(c) => {
            push_pair(v, "bash", c.params.cmd.clone());
            let ghost mid = pair_views(v@);
            let ghost ps = views(c.params.params@);
            let n = c.params.params.len();
            let mut i: usize = 0;
            assert(ps.take(0) =~= Seq::<Seq<char>>::empty());
            assert(mid =~= mid + param_pairs(ps.take(0)));
            while i < n
                invariant
                    n == c.params.params.len(),
                    ps == views(c.params.params@),
                    i <= n,
                    pair_views(v@) == mid + param_pairs(ps.take(i as int)),
                decreases n - i,
            {
                let mut name = String::from_str("param");
                push_decimal(&mut name, i + 1);
                let ghost before = pair_views(v@);
                v.push((name, c.params.params[i].clone()));
                proof {
                    assert(pair_views(v@) =~= before.push((param_name((i + 1) as nat), ps[i as int])));
                    assert(ps.take(i + 1).drop_last() =~= ps.take(i as int));
                }
                i = i + 1;
            }
            assert(ps.take(n as int) =~= ps);
            if !c.terminal {
                push_pair(v, "terminal", String::from_str("false"));
            }
            assert(pair_views(v@) =~= pair_views(old(v)@) + command_pairs(Some(*c)));
        },
        None => {
            assert(pair_views(v@) =~= pair_views(v@) + command_pairs(None));
        },
    }
}

impl Notification {
    /// A notification of the plugin named `plugin_name`, with nothing set.
    pub fn new(swiftbar: SwiftBar, plugin_name: String) -> (r: Notification)
        ensures
            r == (Notification {
                swiftbar,
                plugin_name,
                title: None,
                subtitle: None,
                body: None,
                href: None,
                command: None,
                silent: false,
            }),
    {
        Notification {
            swiftbar,
            plugin_name,
            title: None,
            subtitle: None,
            body: None,
            href: None,
            command: None,
            silent: false,
        }
    }

    /// This notification with the title `title`.
    pub fn title(self, title: String) -> (r: Notification)
        ensures
            r == (Notification { title: Some(title), ..self }),
    {
        let mut n = self;
        n.title = Some(title);
        n
    }

    /// This notification with the subtitle `subtitle`.
    pub fn subtitle(self, subtitle: String) -> (r: Notification)
        ensures
            r == (Notification { subtitle: Some(subtitle), ..self }),
    {
        let mut n = self;
        n.subtitle = Some(subtitle);
        n
    }

    /// This notification with the text `body`.
    pub fn body(self, body: String) -> (r: Notification)
        ensures
            r == (Notification { body: Some(body), ..self }),
    {
        let mut n = self;
        n.body = Some(body);
        n
    }

    /// This notification, opening the URL `href` when clicked, or the `url`
    /// crate's error where `href` is no URL.
    pub fn href(self, href: &str) -> (r: Result<Notification, ConversionError>)
        ensures
            r is Ok <==> parsed_url(href@) is Some,
            r matches Ok(n) ==> n == (Notification { href: n.href, ..self }),
            r matches Ok(n) ==> (n.href matches Some(u) && u@ == parsed_url(href@)->0),
            r matches Err(e) ==> e is Url,
    {
        match parse_url(href) {
            Ok(u) => {
                let mut n = self;
                n.href = Some(u);
                Ok(n)
            },
            Err(e) => Err(ConversionError::Url(e)),
        }
    }

    /// This notification, running the command line `args` when clicked: only
    /// on SwiftBar build 402 or later, and within the classic BitBar app's
    /// limit on parameters.
    pub fn command(self, args: Vec<String>) -> (r: Result<Notification, NotificationCommandError>)
        ensures
            self.swiftbar.build_number() < NOTIFICATION_COMMAND_BUILD ==> r matches Err(
                NotificationCommandError::UnsupportedSwiftBarVersion,
            ),
            self.swiftbar.build_number() >= NOTIFICATION_COMMAND_BUILD ==> (r is Ok <==> 1 <= args.len()
                <= MAX_BITBAR_PARAMS),
            r matches Ok(n) ==> n == (Notification { command: n.command, ..self }),
            r matches Ok(n) ==> (n.command matches Some(c) && c.params@ == views(args@) && !c.terminal),
            r matches Err(NotificationCommandError::Command(v)) ==> v == args,
    {
        if self.swiftbar.build() >= NOTIFICATION_COMMAND_BUILD {
            match Command::try_from(args) {
                Ok(c) => {
                    let mut n = self;
                    n.command = Some(c);
                    Ok(n)
                },
                Err(v) => Err(NotificationCommandError::Command(v)),
            }
        } else {
            Err(NotificationCommandError::UnsupportedSwiftBarVersion)
        }
    }

    /// This notification, without sound.
    pub fn silent(self) -> (r: Notification)
        ensures
            r == (Notification { silent: true, ..self }),
    {
        let mut n = self;
        n.silent = true;
        n
    }

    /// The query pairs of this notification's URL, in order.
    pub fn url_params(&self) -> (r: Vec<(String, String)>)
        ensures
            pair_views(r@) == notification_pairs(*self),
    {
        let mut v: Vec<(String, String)> = Vec::new();
        push_pair(&mut v, "plugin", self.plugin_name.clone());
        push_opt_pair(&mut v, "title", &self.title);
        push_opt_pair(&mut v, "subtitle", &self.subtitle);
        push_opt_pair(&mut v, "body", &self.body);
        push_command_pairs(&mut v, &self.command);
        push_opt_pair(&mut v, "href", &self.href);
        if self.silent {
            push_pair(&mut v, "silent", String::from_str("true"));
        }
        assert(pair_views(v@) =~= notification_pairs(*self));
        v
    }

    /// The `swiftbar://notify` URL that shows this notification.
    pub fn into_url(&self) -> (r: Result<String, ConversionError>)
        ensures
            r is Ok <==> url_with_params("swiftbar://notify"@, notification_pairs(*self)) is Some,
            r matches Ok(u) ==> url_with_params("swiftbar://notify"@, notification_pairs(*self)) == Some(u@),
            r matches Err(e) ==> e is Url,
    {
        let pairs = self.url_params();
        match parse_with_params("swiftbar://notify", &pairs) {
            Ok(u) => Ok(u),
            Err(e) => Err(ConversionError::Url(e)),
        }
    }
}

} // verus!
