//! What the OCR view draws: which recognised tokens are outlined on the
//! page, in which style, and how the token list labels a token's position.

use vstd::prelude::*;
use crate::text::{chars_eq, extend_str, from_chars, push_signed_padded, signed_padded, to_chars};

verus! {

/// Pixel position and size of a recognised token on its page.
#[derive(Clone, Copy, Debug, PartialEq, Eq, Structural)]
pub struct PixelCoords {
    pub x: i32,
    pub y: i32,
    pub width: i32,
    pub height: i32,
}

/// The characters that mark the parts of a document the check looks at
/// (addressee, era and date): their tokens are always outlined.
pub open spec fn is_marker_text(t: Seq<char>) -> bool {
    ||| t == "御"@
    ||| t == "中"@
    ||| t == "令"@
    ||| t == "和"@
    ||| t == "年"@
    ||| t == "月"@
    ||| t == "日"@
    ||| t == "殿"@
    ||| t == "様"@
}

/// Whether a token's text is one of the marker characters.
pub fn is_marker(text: &str) -> (b: bool)
    ensures
        b == is_marker_text(text@),
{
    let s = to_chars(text);
    chars_eq(&s, &to_chars("御")) || chars_eq(&s, &to_chars("中")) || chars_eq(&s, &to_chars("令"))
        || chars_eq(&s, &to_chars("和")) || chars_eq(&s, &to_chars("年")) || chars_eq(
        &s,
        &to_chars("月"),
    ) || chars_eq(&s, &to_chars("日")) || chars_eq(&s, &to_chars("殿")) || chars_eq(
        &s,
        &to_chars("様"),
    )
}

/// How a drawn token is outlined.
#[derive(Clone, Copy, Debug, PartialEq, Eq, Structural)]
pub enum TokenStyle {
    /// The token the user selected: red.
    Selected,
    /// A marker character: blue.
    Marker,
    /// Any other token: green.
    Plain,
}

impl TokenStyle {
    /// The outline colour of a style.
    pub open spec fn stroke_of(self) -> Seq<char> {
        match self {
            TokenStyle::Selected => "#ff0000"@,
            TokenStyle::Marker => "#0066ff"@,
            TokenStyle::Plain => "#00aa00"@,
        }
    }

    /// The fill colour of a style.
    pub open spec fn fill_of(self) -> Seq<char> {
        match self {
            TokenStyle::Selected => "rgba(255, 0, 0, 0.2)"@,
            TokenStyle::Marker => "rgba(0, 102, 255, 0.15)"@,
            TokenStyle::Plain => "rgba(0, 170, 0, 0.1)"@,
        }
    }

    /// The outline colour.
    pub fn stroke_color(&self) -> (r: &'static str)
        ensures
            r@ == self.stroke_of(),
    {
        match self {
            TokenStyle::Selected => "#ff0000",
            TokenStyle::Marker => "#0066ff",
            TokenStyle::Plain => "#00aa00",
        }
    }

    /// The fill colour.
    pub fn fill_color(&self) -> (r: &'static str)
        ensures
            r@ == self.fill_of(),
    {
        match self {
            TokenStyle::Selected => "rgba(255, 0, 0, 0.2)",
            TokenStyle::Marker => "rgba(0, 102, 255, 0.15)",
            TokenStyle::Plain => "rgba(0, 170, 0, 0.1)",
        }
    }

    /// The width of the outline in pixels: 3 selected, 2 marker, 1 plain.
    pub fn line_width(&self) -> (r: u8)
        ensures
            r == match self {
                TokenStyle::Selected => 3u8,
                TokenStyle::Marker => 2u8,
                TokenStyle::Plain => 1u8,
            },
    {
        match self {
            TokenStyle::Selected => 3,
            TokenStyle::Marker => 2,
            TokenStyle::Plain => 1,
        }
    }

    /// Whether the token's text is written above its outline: for the
    /// selected token and for markers.
    pub fn labeled(&self) -> (r: bool)
        ensures
            r == !(*self is Plain),
    {
        match self {
            TokenStyle::Plain => false,
            _ => true,
        }
    }
}

/// Whether token `i` is the selected one.
pub open spec fn is_selected_at(selected: Option<usize>, i: int) -> bool {
    match selected {
        Some(s) => s as int == i,
        None => false,
    }
}

/// The style of token `i` with text `text`, or `None` when it is not
/// drawn: with all boxes hidden only the selected token and the markers
/// are drawn; the selection wins over the marker style.
pub open spec fn style_of(show_all: bool, selected: Option<usize>, i: int, text: Seq<char>) -> Option<
    TokenStyle,
> {
    let sel = is_selected_at(selected, i);
    let marker = is_marker_text(text);
    if !show_all && !sel && !marker {
        None
    } else if sel {
        Some(TokenStyle::Selected)
    } else if marker {
        Some(TokenStyle::Marker)
    } else {
        Some(TokenStyle::Plain)
    }
}

/// The style in which token `i` is drawn, if it is drawn.
pub fn token_style(show_all: bool, selected: Option<usize>, i: usize, text: &str) -> (r: Option<
    TokenStyle,
>)
    ensures
        r == style_of(show_all, selected, i as int, text@),
{
    let sel = match selected {
        Some(s) => s == i,
        None => false,
    };
    let marker = is_marker(text);
    if !show_all && !sel && !marker {
        None
    } else if sel {
        Some(TokenStyle::Selected)
    } else if marker {
        Some(TokenStyle::Marker)
    } else {
        Some(TokenStyle::Plain)
    }
}

/// The tokens drawn, in the order of `texts`, each with its position in
/// `texts` and its style.
pub open spec fn draw_plan_of(texts: Seq<Seq<char>>, show_all: bool, selected: Option<usize>) -> Seq<
    (int, TokenStyle),
>
    decreases texts.len(),
{
    if texts.len() == 0 {
        Seq::empty()
    } else {
        let i = texts.len() - 1;
        draw_plan_of(texts.drop_last(), show_all, selected) + match style_of(
            show_all,
            selected,
            i,
            texts.last(),
        ) {
            Some(st) => seq![(i, st)],
            None => Seq::empty(),
        }
    }
}

/// The tokens to draw for a page whose tokens have the texts `texts`.
pub fn draw_plan(texts: &Vec<String>, show_all: bool, selected: Option<usize>) -> (r: Vec<
    (usize, TokenStyle),
>)
    ensures
        r@.map_values(|p: (usize, TokenStyle)| (p.0 as int, p.1)) == draw_plan_of(
            crate::complexity::string_views(texts@),
            show_all,
            selected,
        ),
{
    let ghost ts = crate::complexity::string_views(texts@);
    let mut r: Vec<(usize, TokenStyle)> = Vec::new();
    let mut i: usize = 0;
    while i < texts.len()
        invariant
            i <= texts@.len(),
            ts == crate::complexity::string_views(texts@),
            r@.map_values(|p: (usize, TokenStyle)| (p.0 as int, p.1)) == draw_plan_of(
                ts.take(i as int),
                show_all,
                selected,
            ),
        decreases texts.len() - i,
    {
        let ghost before = r@;
        let st = token_style(show_all, selected, i, texts[i].as_str());
        match st {
            Some(s) => r.push((i, s)),
            None => {},
        }
        proof {
            let t1 = ts.take(i + 1);
            assert(t1.drop_last() =~= ts.take(i as int));
            assert(t1.last() == texts@[i as int]@);
            assert(r@.map_values(|p: (usize, TokenStyle)| (p.0 as int, p.1)) =~= before.map_values(
                |p: (usize, TokenStyle)| (p.0 as int, p.1),
            ) + match st {
                Some(s) => seq![(i as int, s)],
                None => Seq::empty(),
            });
        }
        i += 1;
    }
    assert(ts.take(texts@.len() as int) =~= ts);
    r
}

/// Every drawn token is the selected one, a marker, or all boxes are shown;
/// the selected token, when there is one on the page, is always drawn, in
/// the selected style.
pub proof fn lemma_selected_always_drawn(
    show_all: bool,
    selected: Option<usize>,
    i: int,
    text: Seq<char>,
)
    ensures
        style_of(show_all, selected, i, text) is Some <==> (show_all || is_selected_at(selected, i)
            || is_marker_text(text)),
        is_selected_at(selected, i) ==> style_of(show_all, selected, i, text) == Some(
            TokenStyle::Selected,
        ),
{
}

/// The CSS class of an entry of the token list.
pub fn token_item_class(is_selected: bool) -> (r: &'static str)
    ensures
        r@ == if is_selected {
            "token-item selected"@
        } else {
            "token-item "@
        },
{
    if is_selected {
        "token-item selected"
    } else {
        "token-item "
    }
}

/// The position of a token as the token list shows it: `(x, y)`.
pub open spec fn coords_label_of(p: PixelCoords) -> Seq<char> {
    "("@ + signed_padded(p.x as int, 0) + ", "@ + signed_padded(p.y as int, 0) + ")"@
}

/// The position label of a token in the token list.
pub fn coords_label(p: &PixelCoords) -> (r: String)
    ensures
        r@ == coords_label_of(*p),
{
    let mut v: Vec<char> = Vec::new();
    extend_str(&mut v, "(");
    push_signed_padded(&mut v, p.x as i128, 0);
    extend_str(&mut v, ", ");
    push_signed_padded(&mut v, p.y as i128, 0);
    extend_str(&mut v, ")");
    from_chars(&v)
}

/// The two lines of a selected token's pixel detail: `x: .., y: ..` and
/// `w: .., h: ..`.
pub open spec fn pixel_detail_of(p: PixelCoords) -> (Seq<char>, Seq<char>) {
    (
        "x: "@ + signed_padded(p.x as int, 0) + ", y: "@ + signed_padded(p.y as int, 0),
        "w: "@ + signed_padded(p.width as int, 0) + ", h: "@ + signed_padded(p.height as int, 0),
    )
}

/// The pixel position and size of the selected token, as its detail table
/// shows them.
pub fn pixel_detail(p: &PixelCoords) -> (r: (String, String))
    ensures
        (r.0@, r.1@) == pixel_detail_of(*p),
{
    let mut a: Vec<char> = Vec::new();
    extend_str(&mut a, "x: ");
    push_signed_padded(&mut a, p.x as i128, 0);
    extend_str(&mut a, ", y: ");
    push_signed_padded(&mut a, p.y as i128, 0);
    let mut b: Vec<char> = Vec::new();
    extend_str(&mut b, "w: ");
    push_signed_padded(&mut b, p.width as i128, 0);
    extend_str(&mut b, ", h: ");
    push_signed_padded(&mut b, p.height as i128, 0);
    (from_chars(&a), from_chars(&b))
}

} // verus!
