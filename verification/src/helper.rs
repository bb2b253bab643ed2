//! The computational cores of the template helpers: integer addition, the
//! previous-page link fragment, and the next-navigation helper's inline
//! template rendering with its suppression rule.

use vstd::prelude::*;

use crate::civil::{
    datetime_literal_value, is_datetime_literal, parse_datetime_str, strftime, strftime_accepts,
    strftime_of, valid_civil,
};
use crate::numfmt::{i64_to_string, int_str};
use crate::pagination::{div_trunc, show_next, Pagination, DEFAULT_LIMIT};
use crate::strutil::{joined, lemma_joined_push, str_eq};

verus! {

/// Renders the sum of the two values handed to the `add` helper.
pub fn render_add(x: i64, y: i64) -> (r: String)
    requires
        i64::MIN <= x + y <= i64::MAX,
    ensures
        r@ == int_str(x as int + y as int),
{
    i64_to_string(x + y)
}

/// One parameter of a helper expression inside an inline template.
pub enum TemplateParam {
    /// A variable, resolved against the render context.
    Name(String),
    /// An integer literal.
    Literal(i64),
    /// Anything else; it contributes zero.
    Other,
}

/// One element of the inline template handed to the next-navigation helper.
pub enum TemplateItem {
    /// Raw text, copied through.
    RawString(String),
    /// An `add` helper expression with its two parameters.
    AddHelper(TemplateParam, TemplateParam),
    /// A helper expression other than `add`; it renders as empty.
    OtherHelper,
    /// Any other element; it renders as empty.
    Other,
}

/// The value of a context variable: the first binding carrying the name,
/// zero when there is none.
pub open spec fn spec_lookup(ctx: Seq<(Seq<char>, i64)>, name: Seq<char>) -> i64
    decreases ctx.len(),
{
    if ctx.len() == 0 {
        0
    } else if ctx[0].0 == name {
        ctx[0].1
    } else {
        spec_lookup(ctx.drop_first(), name)
    }
}

/// The view of a render context: each binding's name as its characters.
pub open spec fn ctx_view(ctx: Seq<(String, i64)>) -> Seq<(Seq<char>, i64)> {
    ctx.map_values(|p: (String, i64)| (p.0@, p.1))
}

/// The value a helper parameter evaluates to.
pub open spec fn spec_param_val(ctx: Seq<(Seq<char>, i64)>, p: TemplateParam) -> i64 {
    match p {
        TemplateParam::Name(n) => spec_lookup(ctx, n@),
        TemplateParam::Literal(v) => v,
        TemplateParam::Other => 0,
    }
}

/// The text one template element renders to.
pub open spec fn spec_item_str(ctx: Seq<(Seq<char>, i64)>, item: TemplateItem) -> Seq<char> {
    match item {
        TemplateItem::RawString(s) => s@,
        TemplateItem::AddHelper(p0, p1) => int_str(
            spec_param_val(ctx, p0) + spec_param_val(ctx, p1),
        ),
        TemplateItem::OtherHelper => Seq::empty(),
        TemplateItem::Other => Seq::empty(),
    }
}

/// The whole inline template's rendering: every element's text, joined with
/// newlines.
pub open spec fn spec_render(ctx: Seq<(Seq<char>, i64)>, items: Seq<TemplateItem>) -> Seq<char> {
    joined(items.map_values(|it: TemplateItem| spec_item_str(ctx, it)), "\n"@)
}

/// Resolves a context variable by name.
pub fn lookup(ctx: &Vec<(String, i64)>, name: &str) -> (r: i64)
    ensures
        r == spec_lookup(ctx_view(ctx@), name@),
{
    let mut i: usize = 0;
    proof {
        assert(ctx_view(ctx@).skip(0) =~= ctx_view(ctx@));
    }
    while i < ctx.len()
        invariant
            0 <= i <= ctx@.len(),
            spec_lookup(ctx_view(ctx@), name@) == spec_lookup(
                ctx_view(ctx@).skip(i as int),
                name@,
            ),
        decreases ctx@.len() - i,
    {
        if str_eq(ctx[i].0.as_str(), name) {
            proof {
                assert(ctx_view(ctx@).skip(i as int)[0] == (ctx@[i as int].0@, ctx@[i as int].1));
            }
            return ctx[i].1;
        }
        proof {
            assert(ctx_view(ctx@).skip(i as int)[0] == (ctx@[i as int].0@, ctx@[i as int].1));
            assert(ctx_view(ctx@).skip(i as int).drop_first() =~= ctx_view(ctx@).skip(i + 1));
        }
        i = i + 1;
    }
    proof {
        assert(ctx_view(ctx@).skip(i as int).len() == 0);
    }
    0
}

/// Evaluates one helper parameter.
pub fn param_value(ctx: &Vec<(String, i64)>, p: &TemplateParam) -> (r: i64)
    ensures
        r == spec_param_val(ctx_view(ctx@), *p),
{
    match p {
        TemplateParam::Name(n) => lookup(ctx, n.as_str()),
        TemplateParam::Literal(v) => *v,
        TemplateParam::Other => 0,
    }
}

/// Renders the inline template of the next-navigation helper: raw text is
/// copied, `add` expressions are evaluated against the context, everything
/// else renders as empty, and the pieces are joined with newlines.
pub fn render_template_items(items: &Vec<TemplateItem>, ctx: &Vec<(String, i64)>) -> (r: String)
    requires
        forall|i: int|
            0 <= i < items@.len() ==> match #[trigger] items@[i] {
                TemplateItem::AddHelper(p0, p1) => i64::MIN <= spec_param_val(ctx_view(ctx@), p0)
                    + spec_param_val(ctx_view(ctx@), p1) <= i64::MAX,
                _ => true,
            },
    ensures
        r@ == spec_render(ctx_view(ctx@), items@),
{
    let ghost strs = items@.map_values(|it: TemplateItem| spec_item_str(ctx_view(ctx@), it));
    let mut r = String::new();
    let mut i: usize = 0;
    while i < items.len()
        invariant
            0 <= i <= items@.len(),
            strs == items@.map_values(|it: TemplateItem| spec_item_str(ctx_view(ctx@), it)),
            r@ == joined(strs.take(i as int), "\n"@),
            forall|j: int|
                0 <= j < items@.len() ==> match #[trigger] items@[j] {
                    TemplateItem::AddHelper(p0, p1) => i64::MIN <= spec_param_val(
                        ctx_view(ctx@),
                        p0,
                    ) + spec_param_val(ctx_view(ctx@), p1) <= i64::MAX,
                    _ => true,
                },
        decreases items@.len() - i,
    {
        if i > 0 {
            r.append("\n");
        }
        match &items[i] {
            TemplateItem::RawString(s) => {
                r.append(s.as_str());
            },
            TemplateItem::AddHelper(p0, p1) => {
                proof {
                    assert(items@[i as int] matches TemplateItem::AddHelper(q0, q1) && q0 == *p0
                        && q1 == *p1);
                }
                let x = param_value(ctx, p0);
                let y = param_value(ctx, p1);
                r.append(i64_to_string(x + y).as_str());
            },
            TemplateItem::OtherHelper => {},
            TemplateItem::Other => {},
        }
        proof {
            assert(strs.take(i + 1) =~= strs.take(i as int).push(strs[i as int]));
            lemma_joined_push(strs.take(i as int), strs[i as int], "\n"@);
        }
        i = i + 1;
    }
    proof {
        assert(strs.take(i as int) =~= strs);
    }
    r
}

/// Picks the total count that a navigation context asks for: locations,
/// organizers, or by default events.
pub fn select_count(p: &Pagination, which: &str) -> (c: i64)
    ensures
        c == (if which@ == "locations"@ {
            p.location_count
        } else if which@ == "organizers"@ {
            p.organizer_count
        } else {
            p.event_count
        }),
{
    if str_eq(which, "locations") {
        p.location_count
    } else if str_eq(which, "organizers") {
        p.organizer_count
    } else {
        p.event_count
    }
}

/// The count the next-page decision uses when the fetch failed: the page
/// size stands in, so navigation degrades instead of blocking.
pub fn count_or_default(fetched: Option<i64>) -> (c: i64)
    ensures
        fetched matches Some(v) ==> c == v,
        fetched is None ==> c == DEFAULT_LIMIT as i64,
{
    match fetched {
        Some(v) => v,
        None => 100,
    }
}

/// What the next-navigation helper finally writes: the rendered inline
/// template, suppressed once the page number reaches the total count divided
/// by the page size.
pub fn next_navigation_value(rendered: String, page_id: i64, count: i64) -> (r: String)
    ensures
        page_id >= div_trunc(count as int, DEFAULT_LIMIT as int) ==> r@ == Seq::<char>::empty(),
        page_id < div_trunc(count as int, DEFAULT_LIMIT as int) ==> r@ == rendered@,
{
    if show_next(page_id, count, 100) {
        rendered
    } else {
        String::new()
    }
}

/// The fragment that links back to the previous page.
pub open spec fn prev_html(prefix: Seq<char>, page: int) -> Seq<char> {
    "<li class=\"page-item background-secondary\">\n                    <a class=\"page-link text-color background-secondary\" href=\"/"@
        + prefix + int_str(page - 1)
        + "\"\n                       aria-label=\"Previous\">\n                        <span aria-hidden=\"true\">&laquo;</span>\n                        <span class=\"sr-only\">Previous</span>\n                    </a>\n                </li>\n                <li class=\"page-item background-secondary\"><a class=\"page-link text-color background-secondary\"\n                                                              href=\"/"@
        + prefix + int_str(page - 1) + "\">"@ + int_str(page - 1) + "</a>\n                </li>"@
}

/// The previous-page link fragment: empty on page one, and otherwise two
/// list items linking to the page before the current one.
pub fn previous_navigation_html(link_prefix: &str, page_id: i64) -> (r: String)
    requires
        page_id > i64::MIN,
    ensures
        page_id == 1 ==> r@ == Seq::<char>::empty(),
        page_id != 1 ==> r@ == prev_html(link_prefix@, page_id as int),
{
    if page_id == 1 {
        return String::new();
    }
    let number = i64_to_string(page_id - 1);
    let mut r = String::from_str(
        "<li class=\"page-item background-secondary\">\n                    <a class=\"page-link text-color background-secondary\" href=\"/",
    );
    r.append(link_prefix);
    r.append(number.as_str());
    r.append(
        "\"\n                       aria-label=\"Previous\">\n                        <span aria-hidden=\"true\">&laquo;</span>\n                        <span class=\"sr-only\">Previous</span>\n                    </a>\n                </li>\n                <li class=\"page-item background-secondary\"><a class=\"page-link text-color background-secondary\"\n                                                              href=\"/",
    );
    r.append(link_prefix);
    r.append(number.as_str());
    r.append("\">");
    r.append(number.as_str());
    r.append("</a>\n                </li>");
    r
}

/// Formats a datetime of the strict form `YYYY-MM-DDTHH:MM:SS` with a
/// strftime format string: the engine's output whenever the value parses and
/// the engine accepts the format, and `None` exactly otherwise.
pub fn time_custom_format(value: &str, format: &str) -> (r: Option<String>)
    ensures
        r is Some <==> (is_datetime_literal(value@) && valid_civil(
            datetime_literal_value(value@),
        ) && strftime_accepts(format@)),
        r matches Some(out) ==> out@ == strftime_of(
            datetime_literal_value(value@).year as int,
            datetime_literal_value(value@).month as int,
            datetime_literal_value(value@).day as int,
            datetime_literal_value(value@).hour as int,
            datetime_literal_value(value@).minute as int,
            datetime_literal_value(value@).second as int,
            format@,
        ),
{
    match parse_datetime_str(value) {
        Some(c) => strftime(&c, format),
        None => None,
    }
}

} // verus!
