//! Facts about rendered menus that hold for every input.
use vstd::prelude::*;
use crate::attr::{Command, Extra};
use crate::attr_list::{
    attr_text, lemma_sorted_entries, lemma_sorted_exists, sorted_entries, strictly_sorted, to_map, Entry,
};
use crate::text::{decimal, digits, line_end, prefix_lines, quoted};
use crate::{
    add_command, add_params, attr_map, escape_text, item_line, param_name, render_item, render_items,
    render_menu, render_menu_item, ContentItem, Menu, MenuItem,
};

verus! {

/// The text of an item, as its line shows it, holds neither `|` nor a newline,
/// and it is the start of the rendered item.
pub proof fn lemma_text_escaped(item: ContentItem, is_alt: bool)
    ensures
        render_item(item, is_alt).len() >= item.text@.len(),
        render_item(item, is_alt).subrange(0, item.text@.len() as int) == escape_text(item.text@),
        forall|i: int| 0 <= i < escape_text(item.text@).len() ==> #[trigger] escape_text(item.text@)[i] != '|'
            && escape_text(item.text@)[i] != '\n',
{
    let e = escape_text(item.text@);
    let r = render_item(item, is_alt);
    assert(r.subrange(0, e.len() as int) =~= e);
}

/// Text without `|` or newlines stands unchanged on its line.
pub proof fn lemma_plain_text(s: Seq<char>)
    requires
        !s.contains('|'),
        !s.contains('\n'),
    ensures
        escape_text(s) == s,
{
    assert forall|i: int| 0 <= i < s.len() implies escape_text(s)[i] == s[i] by {
        assert(s[i] != '|' && s[i] != '\n');
    }
    assert(escape_text(s) =~= s);
}

/// The same menu renders to the same text, whatever else happened meanwhile.
pub proof fn lemma_render_deterministic(m1: Menu, m2: Menu)
    requires
        m1 == m2,
    ensures
        render_menu(m1) == render_menu(m2),
{
}

/// `add_params` adds finitely many names.
pub proof fn lemma_add_params_finite(m: Map<Seq<char>, Seq<char>>, ps: Seq<Seq<char>>)
    requires
        m.dom().finite(),
    ensures
        add_params(m, ps).dom().finite(),
    decreases ps.len(),
{
    if ps.len() > 0 {
        lemma_add_params_finite(m, ps.drop_last());
    }
}

/// An item's line has finitely many attributes.
pub proof fn lemma_attr_map_finite(item: ContentItem, is_alt: bool)
    ensures
        attr_map(item, is_alt).dom().finite(),
{
    let m0 = Map::<Seq<char>, Seq<char>>::empty();
    let m1 = match item.href {
        Some(h) => m0.insert("href"@, h@),
        None => m0,
    };
    let m2 = match item.color {
        Some(c) => m1.insert("color"@, crate::attr::color_text(c)),
        None => m1,
    };
    let m3 = match item.font {
        Some(f) => m2.insert("font"@, f@),
        None => m2,
    };
    let m4 = match item.size {
        Some(n) => m3.insert("size"@, decimal(n as nat)),
        None => m3,
    };
    match item.command {
        Some(c) => {
            lemma_add_params_finite(m4.insert("bash"@, c.params.cmd@), c.params.params@.map_values(|s: String| s@));
        },
        None => {},
    }
}

/// The attributes on an item's line come in strictly increasing order of
/// their names, so each name once, and they are exactly the item's attributes.
pub proof fn lemma_attrs_in_order(item: ContentItem, is_alt: bool)
    ensures
        strictly_sorted(sorted_entries(attr_map(item, is_alt))),
        to_map(sorted_entries(attr_map(item, is_alt))) == attr_map(item, is_alt),
{
    lemma_attr_map_finite(item, is_alt);
    lemma_sorted_exists(attr_map(item, is_alt));
}

/// An item with no attributes and no alternate item or submenu renders as its
/// text and a newline, with no ` |`.
pub proof fn lemma_no_attributes(item: ContentItem)
    requires
        item.extra is None,
        item.href is None,
        item.color is None,
        item.font is None,
        item.size is None,
        item.command is None,
        !item.refresh,
        item.image is None,
        item.flavor_attrs is None,
    ensures
        render_item(item, false) == escape_text(item.text@) + seq!['\n'],
        !item.text@.contains('|') && !item.text@.contains('\n') ==> render_item(item, false) == item.text@
            + seq!['\n'],
{
    let empty = Seq::<Entry>::empty();
    assert(to_map(empty) =~= Map::<Seq<char>, Seq<char>>::empty());
    lemma_sorted_entries(empty);
    assert(attr_map(item, false) == Map::<Seq<char>, Seq<char>>::empty());
    assert(sorted_entries(attr_map(item, false)) == empty);
    assert(render_item(item, false) =~= escape_text(item.text@) + seq!['\n']);
    if !item.text@.contains('|') && !item.text@.contains('\n') {
        lemma_plain_text(item.text@);
    }
}

pub proof fn lemma_decimal_nonempty(n: nat)
    ensures
        decimal(n).len() >= 1,
        n >= 10 ==> decimal(n).len() >= 2,
    decreases n,
{
    if n >= 10 {
        lemma_decimal_nonempty(n / 10);
    }
}

/// Distinct numbers have distinct decimal representations.
pub proof fn lemma_decimal_injective(a: nat, b: nat)
    requires
        decimal(a) == decimal(b),
    ensures
        a == b,
    decreases a,
{
    lemma_decimal_nonempty(a);
    lemma_decimal_nonempty(b);
    let d = digits();
    if a < 10 && b < 10 {
        assert(d[a as int] == decimal(a)[0]);
        assert(d[b as int] == decimal(b)[0]);
    } else if a >= 10 && b >= 10 {
        let da = decimal(a);
        let db = decimal(b);
        assert(da.last() == d[(a % 10) as int]);
        assert(db.last() == d[(b % 10) as int]);
        assert(decimal(a / 10) == da.drop_last());
        assert(decimal(b / 10) == db.drop_last());
        lemma_decimal_injective(a / 10, b / 10);
    }
}

/// The first character and the length of each attribute name.
pub proof fn lemma_names()
    ensures
        "href"@.len() == 4 && "href"@[0] == 'h',
        "color"@.len() == 5 && "color"@[0] == 'c',
        "font"@.len() == 4 && "font"@[0] == 'f',
        "size"@.len() == 4 && "size"@[0] == 's',
        "bash"@.len() == 4 && "bash"@[0] == 'b',
        "terminal"@.len() == 8 && "terminal"@[0] == 't',
        "refresh"@.len() == 7 && "refresh"@[0] == 'r',
        "alternate"@.len() == 9 && "alternate"@[0] == 'a',
        "image"@.len() == 5 && "image"@[0] == 'i',
        "templateImage"@.len() == 13 && "templateImage"@[0] == 't',
        "sfimage"@.len() == 7 && "sfimage"@[0] == 's',
        forall|i: nat| #![trigger param_name(i)] param_name(i).len() > 0 && param_name(i)[0] == 'p',
{
    reveal_strlit("href");
    reveal_strlit("color");
    reveal_strlit("font");
    reveal_strlit("size");
    reveal_strlit("bash");
    reveal_strlit("terminal");
    reveal_strlit("refresh");
    reveal_strlit("alternate");
    reveal_strlit("image");
    reveal_strlit("templateImage");
    reveal_strlit("sfimage");
    reveal_strlit("param");
}

/// A command's attributes: `bash=` holds the command, `paramN=` the `N`-th
/// argument, and `terminal=false` stands exactly when the command runs
/// without a terminal window; no other name changes.
pub proof fn lemma_command_attrs(m: Map<Seq<char>, Seq<char>>, c: Command)
    ensures
        add_command(m, c).contains_key("bash"@),
        add_command(m, c)["bash"@] == c.params.cmd@,
        forall|i: int| 1 <= i <= c.params.params@.len() ==> #[trigger] add_command(m, c).contains_key(param_name(i as nat))
            && add_command(m, c)[param_name(i as nat)] == c.params.params@[i - 1]@,
        !c.terminal ==> add_command(m, c).contains_key("terminal"@) && add_command(m, c)["terminal"@] == "false"@,
        c.terminal ==> (add_command(m, c).contains_key("terminal"@) <==> m.contains_key("terminal"@)),
        forall|k: Seq<char>|
            k != "bash"@ && k != "terminal"@ && (k.len() == 0 || k[0] != 'p') ==> (#[trigger] add_command(
                m,
                c,
            ).contains_key(k) <==> m.contains_key(k)) && (m.contains_key(k) ==> add_command(m, c)[k] == m[k]),
{
    lemma_names();
    let ps = c.params.params@.map_values(|s: String| s@);
    let base = m.insert("bash"@, c.params.cmd@);
    lemma_add_params(base, ps);
    assert forall|i: int| 1 <= i <= ps.len() implies #[trigger] param_name(i as nat) != "bash"@
        && param_name(i as nat) != "terminal"@ by {
        assert(param_name(i as nat)[0] == 'p');
    }
    assert(add_params(base, ps).contains_key("bash"@));
    assert forall|k: Seq<char>|
        k != "bash"@ && k != "terminal"@ && (k.len() == 0 || k[0] != 'p') implies (#[trigger] add_command(
        m,
        c,
    ).contains_key(k) <==> m.contains_key(k)) && (m.contains_key(k) ==> add_command(m, c)[k] == m[k]) by {
        assert forall|i: int| 1 <= i <= ps.len() implies k != #[trigger] param_name(i as nat) by {
            assert(param_name(i as nat)[0] == 'p');
        }
    }
}

/// `add_params` sets `paramN=` to the `N`-th element and leaves other names alone.
pub proof fn lemma_add_params(m: Map<Seq<char>, Seq<char>>, ps: Seq<Seq<char>>)
    ensures
        forall|i: int| 1 <= i <= ps.len() ==> #[trigger] add_params(m, ps).contains_key(param_name(i as nat))
            && add_params(m, ps)[param_name(i as nat)] == ps[i - 1],
        forall|k: Seq<char>|
            (forall|i: int| 1 <= i <= ps.len() ==> k != #[trigger] param_name(i as nat)) ==> (#[trigger] add_params(
                m,
                ps,
            ).contains_key(k) <==> m.contains_key(k)) && (m.contains_key(k) ==> add_params(m, ps)[k] == m[k]),
    decreases ps.len(),
{
    if ps.len() > 0 {
        let q = ps.drop_last();
        let n = ps.len() as int;
        lemma_add_params(m, q);
        assert(add_params(m, ps) == add_params(m, q).insert(param_name(n as nat), ps.last()));
        assert forall|i: int| 1 <= i <= ps.len() implies #[trigger] add_params(m, ps).contains_key(
            param_name(i as nat),
        ) && add_params(m, ps)[param_name(i as nat)] == ps[i - 1] by {
            if i < n {
                if param_name(i as nat) == param_name(n as nat) {
                    reveal_strlit("param");
                    assert(decimal(i as nat) =~= param_name(i as nat).subrange(5, param_name(i as nat).len() as int));
                    assert(decimal(n as nat) =~= param_name(n as nat).subrange(5, param_name(n as nat).len() as int));
                    lemma_decimal_injective(i as nat, n as nat);
                }
                assert(add_params(m, q).contains_key(param_name(i as nat)));
                assert(q[i - 1] == ps[i - 1]);
            }
        }
        assert forall|k: Seq<char>|
            (forall|i: int| 1 <= i <= ps.len() ==> k != #[trigger] param_name(i as nat)) implies (
            #[trigger] add_params(m, ps).contains_key(k) <==> m.contains_key(k)) && (m.contains_key(k)
            ==> add_params(m, ps)[k] == m[k]) by {
            assert(k != param_name(n as nat));
            assert forall|i: int| 1 <= i <= q.len() implies k != #[trigger] param_name(i as nat) by {
                assert(1 <= i <= ps.len());
            }
            assert(add_params(m, q).contains_key(k) <==> m.contains_key(k));
        }
    }
}

/// The command of an item stands on its line as `bash=` with the command,
/// `paramN=` with the `N`-th argument, and `terminal=false` exactly when the
/// command runs without a terminal window.
pub proof fn lemma_item_command(item: ContentItem, is_alt: bool)
    requires
        item.command is Some,
    ensures
        ({
            let c = item.command->Some_0;
            let m = attr_map(item, is_alt);
            &&& m.contains_key("bash"@) && m["bash"@] == c.params.cmd@
            &&& forall|i: int| 1 <= i <= c.params.params@.len() ==> #[trigger] m.contains_key(param_name(i as nat))
                && m[param_name(i as nat)] == c.params.params@[i - 1]@
            &&& m.contains_key("terminal"@) <==> !c.terminal
            &&& !c.terminal ==> m["terminal"@] == "false"@
        }),
{
    lemma_names();
    let c = item.command->Some_0;
    let m0 = Map::<Seq<char>, Seq<char>>::empty();
    let m1 = match item.href {
        Some(h) => m0.insert("href"@, h@),
        None => m0,
    };
    let m2 = match item.color {
        Some(c) => m1.insert("color"@, crate::attr::color_text(c)),
        None => m1,
    };
    let m3 = match item.font {
        Some(f) => m2.insert("font"@, f@),
        None => m2,
    };
    let m4 = match item.size {
        Some(n) => m3.insert("size"@, decimal(n as nat)),
        None => m3,
    };
    assert(!m4.contains_key("terminal"@));
    lemma_command_attrs(m4, c);
    let m = attr_map(item, is_alt);
    assert forall|i: int| 1 <= i <= c.params.params@.len() implies #[trigger] m.contains_key(param_name(i as nat))
        && m[param_name(i as nat)] == c.params.params@[i - 1]@ by {
        assert(add_command(m4, c).contains_key(param_name(i as nat)));
        assert(param_name(i as nat)[0] == 'p');
    }
}

/// A font name that holds a space is quoted on the line.
pub proof fn lemma_font_quoted(item: ContentItem, is_alt: bool, font: Seq<char>)
    requires
        item.font matches Some(f) && f@ == font,
        font.contains(' '),
    ensures
        attr_map(item, is_alt).contains_key("font"@),
        attr_map(item, is_alt)["font"@] == font,
        attr_text(("font"@, font)) == seq![' '] + "font"@ + seq!['=', '"'] + font + seq!['"'],
{
    lemma_names();
    match item.command {
        Some(c) => {
            let m0 = Map::<Seq<char>, Seq<char>>::empty();
            let m1 = match item.href {
                Some(h) => m0.insert("href"@, h@),
                None => m0,
            };
            let m2 = match item.color {
                Some(c) => m1.insert("color"@, crate::attr::color_text(c)),
                None => m1,
            };
            let m3 = m2.insert("font"@, font);
            let m4 = match item.size {
                Some(n) => m3.insert("size"@, decimal(n as nat)),
                None => m3,
            };
            lemma_command_attrs(m4, c);
            assert(add_command(m4, c).contains_key("font"@));
        },
        None => {},
    }
    assert(quoted(font) == seq!['"'] + font + seq!['"']);
    assert(attr_text(("font"@, font)) =~= seq![' '] + "font"@ + seq!['=', '"'] + font + seq!['"']);
}

/// An alternate item stands on the lines right after its primary item's line,
/// with no prefix, and carries `alternate=true`.
pub proof fn lemma_alternate(item: ContentItem, is_alt: bool)
    requires
        item.extra matches Some(Extra::Alternate(_)),
    ensures
        ({
            let alt = *item.extra->Some_0->Alternate_0;
            &&& render_item(item, is_alt) == item_line(item, is_alt) + render_item(alt, true)
            &&& attr_map(alt, true).contains_key("alternate"@)
            &&& attr_map(alt, true)["alternate"@] == "true"@
        }),
{
    lemma_names();
}

/// Prefixed lines end in a newline, unless there are none.
pub proof fn lemma_prefix_lines_ends(s: Seq<char>)
    ensures
        prefix_lines(s).len() == 0 || prefix_lines(s).last() == '\n',
    decreases s.len(),
{
    if s.len() > 0 {
        let e = line_end(s);
        if 0 <= e < s.len() {
            lemma_prefix_lines_ends(s.subrange(e + 1, s.len() as int));
        }
    }
}

/// A rendered item ends in a newline.
pub proof fn lemma_item_ends(item: ContentItem, is_alt: bool)
    ensures
        render_item(item, is_alt).len() > 0,
        render_item(item, is_alt).last() == '\n',
    decreases item,
{
    let line = item_line(item, is_alt);
    assert(line.last() == '\n');
    match item.extra {
        Some(Extra::Alternate(alt)) => {
            lemma_item_ends(*alt, true);
        },
        Some(Extra::Submenu(sub)) => {
            lemma_prefix_lines_ends(render_menu(sub));
        },
        None => {},
    }
}

/// Rendered menu items end in a newline, unless there are none.
pub proof fn lemma_items_end(items: Seq<MenuItem>)
    ensures
        render_items(items).len() == 0 || render_items(items).last() == '\n',
    decreases items.len(),
{
    if items.len() > 0 {
        match items.last() {
            MenuItem::Content(c) => lemma_item_ends(c, false),
            MenuItem::Sep => {},
        }
        assert(render_menu_item(items.last()).len() > 0);
    }
}

/// A rendered menu is empty or ends in a newline: no menu leaves its last line
/// open.
pub proof fn lemma_menu_ends(m: Menu)
    ensures
        render_menu(m).len() == 0 || render_menu(m).last() == '\n',
{
    lemma_items_end(m.0@);
}

/// A menu with no items renders as the empty text.
pub proof fn lemma_empty_menu(m: Menu)
    requires
        m.0@.len() == 0,
    ensures
        render_menu(m) == Seq::<char>::empty(),
{
}

} // verus!
