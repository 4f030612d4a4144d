//! Mapping of CSS declarations to Tailwind utility classes.
//!
//! A declaration is mapped from its parsed value where the property is one
//! that Tailwind has utilities for (spacing, sizing, flexbox, colours,
//! transitions, ...), and otherwise from its printed text `name: value`.
//! Declarations whose `var()` references resolve to something else become
//! arbitrary values built from the resolved text.

use crate::number::Decimal;
use crate::tailwind::values::{
    escape_chars, escape_spec, font_size_chars, font_size_spec, font_weight_chars,
    font_weight_spec, is_lit, length_chars, length_spec, spacing_chars, spacing_spec,
    starts_with_lit,
};
use crate::tailwind::vars::{law_no_reference_unchanged, next_var, resolve_spec, resolve_vars, VariableMap};
use crate::variant::{keys_prefix, TailwindVariant};
use crate::text::{
    chars_of, ends_with, eq_chars, index_of, index_of_char, push_all, push_str,
    replace_all, replace_all_chars, slice_chars, starts_with, string_of, trim, trim_chars,
    trim_end_char, trim_end_char_chars,
};
use vstd::prelude::*;

verus! {

/// A CSS declaration, as the mapping reads it.
///
/// `name` is the property's name without vendor prefix; `parsed` tells
/// whether the value was understood as a value of that property (rather
/// than kept as raw tokens, as for custom properties or values holding
/// `var()`); `custom` whether it defines a custom property; `css` is the whole declaration printed as `name: value`;
/// `value` is the value alone as printed. `gap` holds the printed row and
/// column gaps of a `gap` declaration, and `factor` the number of a
/// `flex-grow` or `flex-shrink` declaration.
#[derive(Debug)]
pub struct CssProperty {
    pub name: String,
    pub parsed: bool,
    pub custom: bool,
    pub css: String,
    pub value: Option<String>,
    pub gap: Option<(String, String)>,
    pub factor: Option<String>,
}

impl CssProperty {
    /// A printed transform that begins with `scale(` ends with `)`, as every
    /// printed transform function does.
    pub open spec fn wf(&self) -> bool {
        (self.parsed && self.name@ == "transform"@) ==> match self.value {
            Some(d) => starts_with(d@, "scale("@) ==> ends_with(d@, ")"@),
            None => true,
        }
    }
}

fn clone_opt_string(o: &Option<String>) -> (r: Option<String>)
    ensures
        r == *o,
{
    match o {
        Some(s) => Some(s.clone()),
        None => None,
    }
}

impl Clone for CssProperty {
    fn clone(&self) -> (r: Self)
        ensures
            r == *self,
    {
        CssProperty {
            name: self.name.clone(),
            parsed: self.parsed,
            custom: self.custom,
            css: self.css.clone(),
            value: clone_opt_string(&self.value),
            gap: match &self.gap {
                Some((a, b)) => Some((a.clone(), b.clone())),
                None => None,
            },
            factor: clone_opt_string(&self.factor),
        }
    }
}

/// The characters of an optional character vector.
pub open spec fn chars_opt(r: Option<Vec<char>>) -> Option<Seq<char>> {
    match r {
        Some(v) => Some(v@),
        None => None,
    }
}

/// An arbitrary value: `head`, the value escaped, and `]`.
pub open spec fn bracket(head: Seq<char>, v: Seq<char>) -> Seq<char> {
    head + escape_spec(v) + "]"@
}

fn bracket_chars(head: &str, v: &[char]) -> (r: Vec<char>)
    ensures
        r@ == bracket(head@, v@),
{
    let mut r = chars_of(head);
    let e = escape_chars(v);
    push_all(&mut r, e.as_slice());
    push_str(&mut r, "]");
    r
}

/// The classes of a `gap` with the printed row and column gaps `row` and `col`:
/// one `gap-` class when they are equal, else `gap-y-` and `gap-x-`.
pub open spec fn gap_class(row: Seq<char>, col: Seq<char>, rem: Decimal) -> Seq<char> {
    if row == col {
        "gap-"@ + length_spec(row, rem)
    } else {
        "gap-y-"@ + length_spec(row, rem) + " gap-x-"@ + length_spec(col, rem)
    }
}

fn gap_chars(row: &[char], col: &[char], rem: &Decimal) -> (r: Vec<char>)
    requires
        rem.wf(),
    ensures
        r@ == gap_class(row@, col@, *rem),
{
    if eq_chars(row, col) {
        let mut r = chars_of("gap-");
        let l = length_chars(row, rem);
        push_all(&mut r, l.as_slice());
        r
    } else {
        let mut r = chars_of("gap-y-");
        let l = length_chars(row, rem);
        push_all(&mut r, l.as_slice());
        push_str(&mut r, " gap-x-");
        let c = length_chars(col, rem);
        push_all(&mut r, c.as_slice());
        r
    }
}

/// The class of a printed transform: `scale-N` for `scale(N)`, else an
/// arbitrary `[transform:...]`.
pub open spec fn transform_class(d: Seq<char>) -> Seq<char> {
    if starts_with(d, "scale("@) {
        "scale-"@ + d.subrange(6, d.len() - 1)
    } else {
        "[transform:"@ + escape_spec(d) + "]"@
    }
}

fn transform_chars(v: &[char]) -> (r: Vec<char>)
    requires
        starts_with(v@, "scale("@) ==> ends_with(v@, ")"@),
    ensures
        r@ == transform_class(v@),
{
    if starts_with_lit(v, "scale(") {
        proof {
            reveal_strlit("scale(");
            reveal_strlit(")");
            assert(v@.subrange(0, 6)[5] == '(');
            assert(v@.subrange(v@.len() - 1, v@.len() as int)[0] == ')');
        }
        let mut r = chars_of("scale-");
        let inner = slice_chars(v, 6, v.len() - 1);
        push_all(&mut r, inner.as_slice());
        r
    } else {
        bracket_chars("[transform:", v)
    }
}

/// The class for a `display` value.
pub open spec fn display_class(v: Seq<char>) -> Seq<char> {
    if v == "none"@ {
        "hidden"@
    } else if v == "block"@ {
        "block"@
    } else if v == "inline"@ {
        "inline"@
    } else if v == "inline-block"@ {
        "inline-block"@
    } else if v == "flex"@ {
        "flex"@
    } else if v == "inline-flex"@ {
        "inline-flex"@
    } else if v == "grid"@ {
        "grid"@
    } else if v == "inline-grid"@ {
        "inline-grid"@
    } else if v == "table"@ {
        "table"@
    } else if v == "inline-table"@ {
        "inline-table"@
    } else if v == "table-row"@ {
        "table-row"@
    } else if v == "table-cell"@ {
        "table-cell"@
    } else if v == "table-column"@ {
        "table-column"@
    } else if v == "table-header-group"@ {
        "table-header-group"@
    } else if v == "table-footer-group"@ {
        "table-footer-group"@
    } else if v == "table-row-group"@ {
        "table-row-group"@
    } else if v == "table-column-group"@ {
        "table-column-group"@
    } else if v == "contents"@ {
        "contents"@
    } else if v == "list-item"@ {
        "list-item"@
    } else {
        bracket("display-["@, v)
    }
}

fn display_chars(v: &[char]) -> (r: Vec<char>)
    ensures
        r@ == display_class(v@),
{
    if is_lit(v, "none") {
        chars_of("hidden")
    } else if is_lit(v, "block") {
        chars_of("block")
    } else if is_lit(v, "inline") {
        chars_of("inline")
    } else if is_lit(v, "inline-block") {
        chars_of("inline-block")
    } else if is_lit(v, "flex") {
        chars_of("flex")
    } else if is_lit(v, "inline-flex") {
        chars_of("inline-flex")
    } else if is_lit(v, "grid") {
        chars_of("grid")
    } else if is_lit(v, "inline-grid") {
        chars_of("inline-grid")
    } else if is_lit(v, "table") {
        chars_of("table")
    } else if is_lit(v, "inline-table") {
        chars_of("inline-table")
    } else if is_lit(v, "table-row") {
        chars_of("table-row")
    } else if is_lit(v, "table-cell") {
        chars_of("table-cell")
    } else if is_lit(v, "table-column") {
        chars_of("table-column")
    } else if is_lit(v, "table-header-group") {
        chars_of("table-header-group")
    } else if is_lit(v, "table-footer-group") {
        chars_of("table-footer-group")
    } else if is_lit(v, "table-row-group") {
        chars_of("table-row-group")
    } else if is_lit(v, "table-column-group") {
        chars_of("table-column-group")
    } else if is_lit(v, "contents") {
        chars_of("contents")
    } else if is_lit(v, "list-item") {
        chars_of("list-item")
    } else {
        bracket_chars("display-[", v)
    }
}

/// The class for a `flex` value.
pub open spec fn flex_class(v: Seq<char>) -> Seq<char> {
    if v == "1 1 0%"@ {
        "flex-1"@
    } else if v == "1 1 0"@ {
        "flex-1"@
    } else if v == "1"@ {
        "flex-1"@
    } else if v == "1 1 auto"@ {
        "flex-auto"@
    } else if v == "auto"@ {
        "flex-auto"@
    } else if v == "0 1 auto"@ {
        "flex-initial"@
    } else if v == "initial"@ {
        "flex-initial"@
    } else if v == "none"@ {
        "flex-none"@
    } else {
        bracket("flex-["@, v)
    }
}

fn flex_chars(v: &[char]) -> (r: Vec<char>)
    ensures
        r@ == flex_class(v@),
{
    if is_lit(v, "1 1 0%") {
        chars_of("flex-1")
    } else if is_lit(v, "1 1 0") {
        chars_of("flex-1")
    } else if is_lit(v, "1") {
        chars_of("flex-1")
    } else if is_lit(v, "1 1 auto") {
        chars_of("flex-auto")
    } else if is_lit(v, "auto") {
        chars_of("flex-auto")
    } else if is_lit(v, "0 1 auto") {
        chars_of("flex-initial")
    } else if is_lit(v, "initial") {
        chars_of("flex-initial")
    } else if is_lit(v, "none") {
        chars_of("flex-none")
    } else {
        bracket_chars("flex-[", v)
    }
}

/// The class for a `float` value.
pub open spec fn float_class(v: Seq<char>) -> Seq<char> {
    if v == "left"@ {
        "float-left"@
    } else if v == "right"@ {
        "float-right"@
    } else if v == "none"@ {
        "float-none"@
    } else if v == "inline-start"@ {
        "float-left"@
    } else if v == "inline-end"@ {
        "float-right"@
    } else {
        bracket("float-["@, v)
    }
}

fn float_chars(v: &[char]) -> (r: Vec<char>)
    ensures
        r@ == float_class(v@),
{
    if is_lit(v, "left") {
        chars_of("float-left")
    } else if is_lit(v, "right") {
        chars_of("float-right")
    } else if is_lit(v, "none") {
        chars_of("float-none")
    } else if is_lit(v, "inline-start") {
        chars_of("float-left")
    } else if is_lit(v, "inline-end") {
        chars_of("float-right")
    } else {
        bracket_chars("float-[", v)
    }
}

/// The class for a `clear` value.
pub open spec fn clear_class(v: Seq<char>) -> Seq<char> {
    if v == "left"@ {
        "clear-left"@
    } else if v == "right"@ {
        "clear-right"@
    } else if v == "both"@ {
        "clear-both"@
    } else if v == "none"@ {
        "clear-none"@
    } else if v == "inline-start"@ {
        "clear-left"@
    } else if v == "inline-end"@ {
        "clear-right"@
    } else {
        bracket("clear-["@, v)
    }
}

fn clear_chars(v: &[char]) -> (r: Vec<char>)
    ensures
        r@ == clear_class(v@),
{
    if is_lit(v, "left") {
        chars_of("clear-left")
    } else if is_lit(v, "right") {
        chars_of("clear-right")
    } else if is_lit(v, "both") {
        chars_of("clear-both")
    } else if is_lit(v, "none") {
        chars_of("clear-none")
    } else if is_lit(v, "inline-start") {
        chars_of("clear-left")
    } else if is_lit(v, "inline-end") {
        chars_of("clear-right")
    } else {
        bracket_chars("clear-[", v)
    }
}

/// The class for a `object-fit` value.
pub open spec fn object_fit_class(v: Seq<char>) -> Seq<char> {
    if v == "contain"@ {
        "object-contain"@
    } else if v == "cover"@ {
        "object-cover"@
    } else if v == "fill"@ {
        "object-fill"@
    } else if v == "none"@ {
        "object-none"@
    } else if v == "scale-down"@ {
        "object-scale-down"@
    } else {
        bracket("object-["@, v)
    }
}

fn object_fit_chars(v: &[char]) -> (r: Vec<char>)
    ensures
        r@ == object_fit_class(v@),
{
    if is_lit(v, "contain") {
        chars_of("object-contain")
    } else if is_lit(v, "cover") {
        chars_of("object-cover")
    } else if is_lit(v, "fill") {
        chars_of("object-fill")
    } else if is_lit(v, "none") {
        chars_of("object-none")
    } else if is_lit(v, "scale-down") {
        chars_of("object-scale-down")
    } else {
        bracket_chars("object-[", v)
    }
}

/// The class for a `text-decoration` value.
pub open spec fn text_decoration_class(v: Seq<char>) -> Seq<char> {
    if v == "none"@ {
        "no-underline"@
    } else if v == "underline"@ {
        "underline"@
    } else if v == "line-through"@ {
        "line-through"@
    } else if v == "overline"@ {
        "overline"@
    } else {
        bracket("decoration-["@, v)
    }
}

fn text_decoration_chars(v: &[char]) -> (r: Vec<char>)
    ensures
        r@ == text_decoration_class(v@),
{
    if is_lit(v, "none") {
        chars_of("no-underline")
    } else if is_lit(v, "underline") {
        chars_of("underline")
    } else if is_lit(v, "line-through") {
        chars_of("line-through")
    } else if is_lit(v, "overline") {
        chars_of("overline")
    } else {
        bracket_chars("decoration-[", v)
    }
}

/// The class for a `vertical-align` value.
pub open spec fn vertical_align_class(v: Seq<char>) -> Seq<char> {
    if v == "baseline"@ {
        "align-baseline"@
    } else if v == "top"@ {
        "align-top"@
    } else if v == "middle"@ {
        "align-middle"@
    } else if v == "bottom"@ {
        "align-bottom"@
    } else if v == "text-top"@ {
        "align-text-top"@
    } else if v == "text-bottom"@ {
        "align-text-bottom"@
    } else {
        bracket("align-["@, v)
    }
}

fn vertical_align_chars(v: &[char]) -> (r: Vec<char>)
    ensures
        r@ == vertical_align_class(v@),
{
    if is_lit(v, "baseline") {
        chars_of("align-baseline")
    } else if is_lit(v, "top") {
        chars_of("align-top")
    } else if is_lit(v, "middle") {
        chars_of("align-middle")
    } else if is_lit(v, "bottom") {
        chars_of("align-bottom")
    } else if is_lit(v, "text-top") {
        chars_of("align-text-top")
    } else if is_lit(v, "text-bottom") {
        chars_of("align-text-bottom")
    } else {
        bracket_chars("align-[", v)
    }
}

/// The class for a `white-space` value.
pub open spec fn white_space_class(v: Seq<char>) -> Seq<char> {
    if v == "normal"@ {
        "whitespace-normal"@
    } else if v == "nowrap"@ {
        "whitespace-nowrap"@
    } else if v == "pre"@ {
        "whitespace-pre"@
    } else if v == "pre-line"@ {
        "whitespace-pre-line"@
    } else if v == "pre-wrap"@ {
        "whitespace-pre-wrap"@
    } else {
        bracket("whitespace-["@, v)
    }
}

fn white_space_chars(v: &[char]) -> (r: Vec<char>)
    ensures
        r@ == white_space_class(v@),
{
    if is_lit(v, "normal") {
        chars_of("whitespace-normal")
    } else if is_lit(v, "nowrap") {
        chars_of("whitespace-nowrap")
    } else if is_lit(v, "pre") {
        chars_of("whitespace-pre")
    } else if is_lit(v, "pre-line") {
        chars_of("whitespace-pre-line")
    } else if is_lit(v, "pre-wrap") {
        chars_of("whitespace-pre-wrap")
    } else {
        bracket_chars("whitespace-[", v)
    }
}

/// The class for a `word-break` value.
pub open spec fn word_break_class(v: Seq<char>) -> Option<Seq<char>> {
    if v == "break-all"@ {
        Some("break-all"@)
    } else if v == "keep-all"@ {
        Some("break-keep"@)
    } else if v == "break-word"@ {
        Some("break-words"@)
    } else {
        None
    }
}

fn word_break_chars(v: &[char]) -> (r: Option<Vec<char>>)
    ensures
        chars_opt(r) == word_break_class(v@),
{
    if is_lit(v, "break-all") {
        Some(chars_of("break-all"))
    } else if is_lit(v, "keep-all") {
        Some(chars_of("break-keep"))
    } else if is_lit(v, "break-word") {
        Some(chars_of("break-words"))
    } else {
        None
    }
}

/// The class for a `align-content` value.
pub open spec fn align_content_class(v: Seq<char>) -> Seq<char> {
    if v == "flex-start"@ {
        "content-start"@
    } else if v == "start"@ {
        "content-start"@
    } else if v == "flex-end"@ {
        "content-end"@
    } else if v == "end"@ {
        "content-end"@
    } else if v == "center"@ {
        "content-center"@
    } else if v == "space-between"@ {
        "content-between"@
    } else if v == "between"@ {
        "content-between"@
    } else if v == "space-around"@ {
        "content-around"@
    } else if v == "around"@ {
        "content-around"@
    } else if v == "space-evenly"@ {
        "content-evenly"@
    } else if v == "evenly"@ {
        "content-evenly"@
    } else if v == "stretch"@ {
        "content-stretch"@
    } else if v == "baseline"@ {
        "content-baseline"@
    } else {
        bracket("content-["@, v)
    }
}

fn align_content_chars(v: &[char]) -> (r: Vec<char>)
    ensures
        r@ == align_content_class(v@),
{
    if is_lit(v, "flex-start") {
        chars_of("content-start")
    } else if is_lit(v, "start") {
        chars_of("content-start")
    } else if is_lit(v, "flex-end") {
        chars_of("content-end")
    } else if is_lit(v, "end") {
        chars_of("content-end")
    } else if is_lit(v, "center") {
        chars_of("content-center")
    } else if is_lit(v, "space-between") {
        chars_of("content-between")
    } else if is_lit(v, "between") {
        chars_of("content-between")
    } else if is_lit(v, "space-around") {
        chars_of("content-around")
    } else if is_lit(v, "around") {
        chars_of("content-around")
    } else if is_lit(v, "space-evenly") {
        chars_of("content-evenly")
    } else if is_lit(v, "evenly") {
        chars_of("content-evenly")
    } else if is_lit(v, "stretch") {
        chars_of("content-stretch")
    } else if is_lit(v, "baseline") {
        chars_of("content-baseline")
    } else {
        bracket_chars("content-[", v)
    }
}

/// The class for a `overflow` value.
pub open spec fn overflow_class(v: Seq<char>) -> Seq<char> {
    if v == "auto"@ {
        "overflow-auto"@
    } else if v == "hidden"@ {
        "overflow-hidden"@
    } else if v == "visible"@ {
        "overflow-visible"@
    } else if v == "scroll"@ {
        "overflow-scroll"@
    } else {
        bracket("overflow-["@, v)
    }
}

fn overflow_chars(v: &[char]) -> (r: Vec<char>)
    ensures
        r@ == overflow_class(v@),
{
    if is_lit(v, "auto") {
        chars_of("overflow-auto")
    } else if is_lit(v, "hidden") {
        chars_of("overflow-hidden")
    } else if is_lit(v, "visible") {
        chars_of("overflow-visible")
    } else if is_lit(v, "scroll") {
        chars_of("overflow-scroll")
    } else {
        bracket_chars("overflow-[", v)
    }
}

/// The class for a `overflow-x` value.
pub open spec fn overflow_x_class(v: Seq<char>) -> Seq<char> {
    if v == "auto"@ {
        "overflow-x-auto"@
    } else if v == "hidden"@ {
        "overflow-x-hidden"@
    } else if v == "visible"@ {
        "overflow-x-visible"@
    } else if v == "scroll"@ {
        "overflow-x-scroll"@
    } else {
        bracket("overflow-x-["@, v)
    }
}

fn overflow_x_chars(v: &[char]) -> (r: Vec<char>)
    ensures
        r@ == overflow_x_class(v@),
{
    if is_lit(v, "auto") {
        chars_of("overflow-x-auto")
    } else if is_lit(v, "hidden") {
        chars_of("overflow-x-hidden")
    } else if is_lit(v, "visible") {
        chars_of("overflow-x-visible")
    } else if is_lit(v, "scroll") {
        chars_of("overflow-x-scroll")
    } else {
        bracket_chars("overflow-x-[", v)
    }
}

/// The class for a `overflow-y` value.
pub open spec fn overflow_y_class(v: Seq<char>) -> Seq<char> {
    if v == "auto"@ {
        "overflow-y-auto"@
    } else if v == "hidden"@ {
        "overflow-y-hidden"@
    } else if v == "visible"@ {
        "overflow-y-visible"@
    } else if v == "scroll"@ {
        "overflow-y-scroll"@
    } else {
        bracket("overflow-y-["@, v)
    }
}

fn overflow_y_chars(v: &[char]) -> (r: Vec<char>)
    ensures
        r@ == overflow_y_class(v@),
{
    if is_lit(v, "auto") {
        chars_of("overflow-y-auto")
    } else if is_lit(v, "hidden") {
        chars_of("overflow-y-hidden")
    } else if is_lit(v, "visible") {
        chars_of("overflow-y-visible")
    } else if is_lit(v, "scroll") {
        chars_of("overflow-y-scroll")
    } else {
        bracket_chars("overflow-y-[", v)
    }
}

/// The class for a `visibility` value.
pub open spec fn visibility_class(v: Seq<char>) -> Seq<char> {
    if v == "visible"@ {
        "visible"@
    } else if v == "hidden"@ {
        "invisible"@
    } else if v == "collapse"@ {
        "invisible"@
    } else {
        bracket("visibility-["@, v)
    }
}

fn visibility_chars(v: &[char]) -> (r: Vec<char>)
    ensures
        r@ == visibility_class(v@),
{
    if is_lit(v, "visible") {
        chars_of("visible")
    } else if is_lit(v, "hidden") {
        chars_of("invisible")
    } else if is_lit(v, "collapse") {
        chars_of("invisible")
    } else {
        bracket_chars("visibility-[", v)
    }
}

/// The class for a `box-sizing` value.
pub open spec fn box_sizing_class(v: Seq<char>) -> Option<Seq<char>> {
    if v == "border-box"@ {
        Some("box-border"@)
    } else if v == "content-box"@ {
        Some("box-content"@)
    } else {
        None
    }
}

fn box_sizing_chars(v: &[char]) -> (r: Option<Vec<char>>)
    ensures
        chars_opt(r) == box_sizing_class(v@),
{
    if is_lit(v, "border-box") {
        Some(chars_of("box-border"))
    } else if is_lit(v, "content-box") {
        Some(chars_of("box-content"))
    } else {
        None
    }
}

/// The class for a `text-align` value.
pub open spec fn text_align_class(v: Seq<char>) -> Seq<char> {
    if v == "left"@ {
        "text-left"@
    } else if v == "start"@ {
        "text-left"@
    } else if v == "right"@ {
        "text-right"@
    } else if v == "end"@ {
        "text-right"@
    } else if v == "center"@ {
        "text-center"@
    } else if v == "justify"@ {
        "text-justify"@
    } else {
        bracket("text-["@, v)
    }
}

fn text_align_chars(v: &[char]) -> (r: Vec<char>)
    ensures
        r@ == text_align_class(v@),
{
    if is_lit(v, "left") {
        chars_of("text-left")
    } else if is_lit(v, "start") {
        chars_of("text-left")
    } else if is_lit(v, "right") {
        chars_of("text-right")
    } else if is_lit(v, "end") {
        chars_of("text-right")
    } else if is_lit(v, "center") {
        chars_of("text-center")
    } else if is_lit(v, "justify") {
        chars_of("text-justify")
    } else {
        bracket_chars("text-[", v)
    }
}

/// The class for a `text-transform` value.
pub open spec fn text_transform_class(v: Seq<char>) -> Seq<char> {
    if v == "uppercase"@ {
        "uppercase"@
    } else if v == "lowercase"@ {
        "lowercase"@
    } else if v == "capitalize"@ {
        "capitalize"@
    } else if v == "none"@ {
        "normal-case"@
    } else {
        bracket("text-transform-["@, v)
    }
}

fn text_transform_chars(v: &[char]) -> (r: Vec<char>)
    ensures
        r@ == text_transform_class(v@),
{
    if is_lit(v, "uppercase") {
        chars_of("uppercase")
    } else if is_lit(v, "lowercase") {
        chars_of("lowercase")
    } else if is_lit(v, "capitalize") {
        chars_of("capitalize")
    } else if is_lit(v, "none") {
        chars_of("normal-case")
    } else {
        bracket_chars("text-transform-[", v)
    }
}

/// The class for a `aspect-ratio` value.
pub open spec fn aspect_ratio_class(v: Seq<char>) -> Seq<char> {
    if v == "1 / 1"@ {
        "aspect-square"@
    } else if v == "1"@ {
        "aspect-square"@
    } else if v == "16 / 9"@ {
        "aspect-video"@
    } else {
        bracket("aspect-["@, v)
    }
}

fn aspect_ratio_chars(v: &[char]) -> (r: Vec<char>)
    ensures
        r@ == aspect_ratio_class(v@),
{
    if is_lit(v, "1 / 1") {
        chars_of("aspect-square")
    } else if is_lit(v, "1") {
        chars_of("aspect-square")
    } else if is_lit(v, "16 / 9") {
        chars_of("aspect-video")
    } else {
        bracket_chars("aspect-[", v)
    }
}

/// The class for a `order` value.
pub open spec fn order_class(v: Seq<char>) -> Seq<char> {
    if v == "-1"@ {
        "order-first"@
    } else if v == "0"@ {
        "order-none"@
    } else if v == "999999"@ {
        "order-last"@
    } else if v == "13"@ {
        "order-last"@
    } else {
        bracket("order-["@, v)
    }
}

fn order_chars(v: &[char]) -> (r: Vec<char>)
    ensures
        r@ == order_class(v@),
{
    if is_lit(v, "-1") {
        chars_of("order-first")
    } else if is_lit(v, "0") {
        chars_of("order-none")
    } else if is_lit(v, "999999") {
        chars_of("order-last")
    } else if is_lit(v, "13") {
        chars_of("order-last")
    } else {
        bracket_chars("order-[", v)
    }
}

/// The class for a `line-height` value.
pub open spec fn line_height_class(v: Seq<char>) -> Seq<char> {
    if v == "1"@ {
        "leading-none"@
    } else if v == "1.25"@ {
        "leading-tight"@
    } else if v == "1.375"@ {
        "leading-snug"@
    } else if v == "1.5"@ {
        "leading-normal"@
    } else if v == "1.625"@ {
        "leading-relaxed"@
    } else if v == "2"@ {
        "leading-loose"@
    } else {
        bracket("leading-["@, v)
    }
}

fn line_height_chars(v: &[char]) -> (r: Vec<char>)
    ensures
        r@ == line_height_class(v@),
{
    if is_lit(v, "1") {
        chars_of("leading-none")
    } else if is_lit(v, "1.25") {
        chars_of("leading-tight")
    } else if is_lit(v, "1.375") {
        chars_of("leading-snug")
    } else if is_lit(v, "1.5") {
        chars_of("leading-normal")
    } else if is_lit(v, "1.625") {
        chars_of("leading-relaxed")
    } else if is_lit(v, "2") {
        chars_of("leading-loose")
    } else {
        bracket_chars("leading-[", v)
    }
}

/// The class for a `box-shadow` value.
pub open spec fn box_shadow_class(v: Seq<char>) -> Seq<char> {
    if v == "none"@ {
        "shadow-none"@
    } else {
        bracket("shadow-["@, v)
    }
}

fn box_shadow_chars(v: &[char]) -> (r: Vec<char>)
    ensures
        r@ == box_shadow_class(v@),
{
    if is_lit(v, "none") {
        chars_of("shadow-none")
    } else {
        bracket_chars("shadow-[", v)
    }
}

/// The class that the printed declaration `name: val` gives, for the properties
/// that are mapped from their text; any other property becomes the arbitrary
/// property `[name:val]`.
pub open spec fn generic_spec(name: Seq<char>, val: Seq<char>) -> Option<Seq<char>> {
    if name == "display"@ {
        Some(display_class(val))
    } else if name == "flex"@ {
        Some(flex_class(val))
    } else if name == "float"@ {
        Some(float_class(val))
    } else if name == "clear"@ {
        Some(clear_class(val))
    } else if name == "object-fit"@ {
        Some(object_fit_class(val))
    } else if name == "text-decoration"@ || name == "text-decoration-line"@ {
        Some(text_decoration_class(val))
    } else if name == "vertical-align"@ {
        Some(vertical_align_class(val))
    } else if name == "white-space"@ {
        Some(white_space_class(val))
    } else if name == "word-break"@ {
        word_break_class(val)
    } else if name == "align-content"@ {
        Some(align_content_class(val))
    } else if name == "overflow"@ {
        Some(overflow_class(val))
    } else if name == "overflow-x"@ {
        Some(overflow_x_class(val))
    } else if name == "overflow-y"@ {
        Some(overflow_y_class(val))
    } else if name == "visibility"@ {
        Some(visibility_class(val))
    } else if name == "user-select"@ {
        Some("select-"@ + val)
    } else if name == "pointer-events"@ {
        Some("pointer-events-"@ + val)
    } else if name == "cursor"@ {
        Some("cursor-"@ + val)
    } else if name == "content"@ {
        Some(bracket("content-["@, val))
    } else if name == "box-sizing"@ {
        box_sizing_class(val)
    } else if name == "text-align"@ {
        Some(text_align_class(val))
    } else if name == "text-transform"@ {
        Some(text_transform_class(val))
    } else if name == "aspect-ratio"@ {
        Some(aspect_ratio_class(val))
    } else if name == "top"@ {
        Some(bracket("top-["@, val))
    } else if name == "bottom"@ {
        Some(bracket("bottom-["@, val))
    } else if name == "left"@ {
        Some(bracket("left-["@, val))
    } else if name == "right"@ {
        Some(bracket("right-["@, val))
    } else if name == "z-index"@ {
        Some(bracket("z-["@, val))
    } else if name == "order"@ {
        Some(order_class(val))
    } else if name == "line-height"@ {
        Some(line_height_class(val))
    } else if name == "font-family"@ {
        Some(bracket("font-["@, val))
    } else if name == "box-shadow"@ {
        Some(box_shadow_class(val))
    } else if name == "transform"@ {
        Some(bracket("transform-["@, val))
    } else if name.len() > 0 {
        Some(bracket("["@, name + ":"@ + val))
    } else {
        None
    }
}

fn generic_chars(name: &[char], val: &[char]) -> (r: Option<Vec<char>>)
    ensures
        chars_opt(r) == generic_spec(name@, val@),
{
    if is_lit(name, "display") {
        Some(display_chars(val))
    } else if is_lit(name, "flex") {
        Some(flex_chars(val))
    } else if is_lit(name, "float") {
        Some(float_chars(val))
    } else if is_lit(name, "clear") {
        Some(clear_chars(val))
    } else if is_lit(name, "object-fit") {
        Some(object_fit_chars(val))
    } else if is_lit(name, "text-decoration") || is_lit(name, "text-decoration-line") {
        Some(text_decoration_chars(val))
    } else if is_lit(name, "vertical-align") {
        Some(vertical_align_chars(val))
    } else if is_lit(name, "white-space") {
        Some(white_space_chars(val))
    } else if is_lit(name, "word-break") {
        word_break_chars(val)
    } else if is_lit(name, "align-content") {
        Some(align_content_chars(val))
    } else if is_lit(name, "overflow") {
        Some(overflow_chars(val))
    } else if is_lit(name, "overflow-x") {
        Some(overflow_x_chars(val))
    } else if is_lit(name, "overflow-y") {
        Some(overflow_y_chars(val))
    } else if is_lit(name, "visibility") {
        Some(visibility_chars(val))
    } else if is_lit(name, "user-select") {
        let mut r = chars_of("select-");
        push_all(&mut r, val);
        Some(r)
    } else if is_lit(name, "pointer-events") {
        let mut r = chars_of("pointer-events-");
        push_all(&mut r, val);
        Some(r)
    } else if is_lit(name, "cursor") {
        let mut r = chars_of("cursor-");
        push_all(&mut r, val);
        Some(r)
    } else if is_lit(name, "content") {
        Some(bracket_chars("content-[", val))
    } else if is_lit(name, "box-sizing") {
        box_sizing_chars(val)
    } else if is_lit(name, "text-align") {
        Some(text_align_chars(val))
    } else if is_lit(name, "text-transform") {
        Some(text_transform_chars(val))
    } else if is_lit(name, "aspect-ratio") {
        Some(aspect_ratio_chars(val))
    } else if is_lit(name, "top") {
        Some(bracket_chars("top-[", val))
    } else if is_lit(name, "bottom") {
        Some(bracket_chars("bottom-[", val))
    } else if is_lit(name, "left") {
        Some(bracket_chars("left-[", val))
    } else if is_lit(name, "right") {
        Some(bracket_chars("right-[", val))
    } else if is_lit(name, "z-index") {
        Some(bracket_chars("z-[", val))
    } else if is_lit(name, "order") {
        Some(order_chars(val))
    } else if is_lit(name, "line-height") {
        Some(line_height_chars(val))
    } else if is_lit(name, "font-family") {
        Some(bracket_chars("font-[", val))
    } else if is_lit(name, "box-shadow") {
        Some(box_shadow_chars(val))
    } else if is_lit(name, "transform") {
        Some(bracket_chars("transform-[", val))
    } else if name.len() > 0 {
        let mut nv = slice_chars(name, 0, name.len());
        push_str(&mut nv, ":");
        push_all(&mut nv, val);
        assert(name@.subrange(0, name@.len() as int) =~= name@);
        Some(bracket_chars("[", nv.as_slice()))
    } else {
        None
    }
}

/// The class for a parsed `flex-direction` value.
pub open spec fn flex_direction_class(v: Seq<char>) -> Seq<char> {
    if v == "row"@ {
        "flex-row"@
    } else if v == "row-reverse"@ {
        "flex-row-reverse"@
    } else if v == "column"@ {
        "flex-col"@
    } else if v == "column-reverse"@ {
        "flex-col-reverse"@
    } else {
        bracket("flex-[direction:"@, v)
    }
}

fn flex_direction_chars(v: &[char]) -> (r: Vec<char>)
    ensures
        r@ == flex_direction_class(v@),
{
    if is_lit(v, "row") {
        chars_of("flex-row")
    } else if is_lit(v, "row-reverse") {
        chars_of("flex-row-reverse")
    } else if is_lit(v, "column") {
        chars_of("flex-col")
    } else if is_lit(v, "column-reverse") {
        chars_of("flex-col-reverse")
    } else {
        bracket_chars("flex-[direction:", v)
    }
}

/// The class for a parsed `flex-wrap` value.
pub open spec fn flex_wrap_class(v: Seq<char>) -> Seq<char> {
    if v == "wrap"@ {
        "flex-wrap"@
    } else if v == "wrap-reverse"@ {
        "flex-wrap-reverse"@
    } else if v == "nowrap"@ {
        "flex-nowrap"@
    } else {
        bracket("flex-[wrap:"@, v)
    }
}

fn flex_wrap_chars(v: &[char]) -> (r: Vec<char>)
    ensures
        r@ == flex_wrap_class(v@),
{
    if is_lit(v, "wrap") {
        chars_of("flex-wrap")
    } else if is_lit(v, "wrap-reverse") {
        chars_of("flex-wrap-reverse")
    } else if is_lit(v, "nowrap") {
        chars_of("flex-nowrap")
    } else {
        bracket_chars("flex-[wrap:", v)
    }
}

/// The class for a parsed `justify-content` value.
pub open spec fn justify_content_class(v: Seq<char>) -> Seq<char> {
    if v == "flex-start"@ {
        "justify-start"@
    } else if v == "start"@ {
        "justify-start"@
    } else if v == "flex-end"@ {
        "justify-end"@
    } else if v == "end"@ {
        "justify-end"@
    } else if v == "center"@ {
        "justify-center"@
    } else if v == "space-between"@ {
        "justify-between"@
    } else if v == "between"@ {
        "justify-between"@
    } else if v == "space-around"@ {
        "justify-around"@
    } else if v == "around"@ {
        "justify-around"@
    } else if v == "space-evenly"@ {
        "justify-evenly"@
    } else if v == "evenly"@ {
        "justify-evenly"@
    } else {
        bracket("justify-["@, v)
    }
}

fn justify_content_chars(v: &[char]) -> (r: Vec<char>)
    ensures
        r@ == justify_content_class(v@),
{
    if is_lit(v, "flex-start") {
        chars_of("justify-start")
    } else if is_lit(v, "start") {
        chars_of("justify-start")
    } else if is_lit(v, "flex-end") {
        chars_of("justify-end")
    } else if is_lit(v, "end") {
        chars_of("justify-end")
    } else if is_lit(v, "center") {
        chars_of("justify-center")
    } else if is_lit(v, "space-between") {
        chars_of("justify-between")
    } else if is_lit(v, "between") {
        chars_of("justify-between")
    } else if is_lit(v, "space-around") {
        chars_of("justify-around")
    } else if is_lit(v, "around") {
        chars_of("justify-around")
    } else if is_lit(v, "space-evenly") {
        chars_of("justify-evenly")
    } else if is_lit(v, "evenly") {
        chars_of("justify-evenly")
    } else {
        bracket_chars("justify-[", v)
    }
}

/// The class for a parsed `align-items` value.
pub open spec fn align_items_class(v: Seq<char>) -> Seq<char> {
    if v == "flex-start"@ {
        "items-start"@
    } else if v == "start"@ {
        "items-start"@
    } else if v == "flex-end"@ {
        "items-end"@
    } else if v == "end"@ {
        "items-end"@
    } else if v == "center"@ {
        "items-center"@
    } else if v == "baseline"@ {
        "items-baseline"@
    } else if v == "stretch"@ {
        "items-stretch"@
    } else {
        bracket("items-["@, v)
    }
}

fn align_items_chars(v: &[char]) -> (r: Vec<char>)
    ensures
        r@ == align_items_class(v@),
{
    if is_lit(v, "flex-start") {
        chars_of("items-start")
    } else if is_lit(v, "start") {
        chars_of("items-start")
    } else if is_lit(v, "flex-end") {
        chars_of("items-end")
    } else if is_lit(v, "end") {
        chars_of("items-end")
    } else if is_lit(v, "center") {
        chars_of("items-center")
    } else if is_lit(v, "baseline") {
        chars_of("items-baseline")
    } else if is_lit(v, "stretch") {
        chars_of("items-stretch")
    } else {
        bracket_chars("items-[", v)
    }
}

/// The class for a parsed `align-self` value.
pub open spec fn align_self_class(v: Seq<char>) -> Seq<char> {
    if v == "auto"@ {
        "self-auto"@
    } else if v == "flex-start"@ {
        "self-start"@
    } else if v == "start"@ {
        "self-start"@
    } else if v == "flex-end"@ {
        "self-end"@
    } else if v == "end"@ {
        "self-end"@
    } else if v == "center"@ {
        "self-center"@
    } else if v == "baseline"@ {
        "self-baseline"@
    } else if v == "stretch"@ {
        "self-stretch"@
    } else {
        bracket("self-["@, v)
    }
}

fn align_self_chars(v: &[char]) -> (r: Vec<char>)
    ensures
        r@ == align_self_class(v@),
{
    if is_lit(v, "auto") {
        chars_of("self-auto")
    } else if is_lit(v, "flex-start") {
        chars_of("self-start")
    } else if is_lit(v, "start") {
        chars_of("self-start")
    } else if is_lit(v, "flex-end") {
        chars_of("self-end")
    } else if is_lit(v, "end") {
        chars_of("self-end")
    } else if is_lit(v, "center") {
        chars_of("self-center")
    } else if is_lit(v, "baseline") {
        chars_of("self-baseline")
    } else if is_lit(v, "stretch") {
        chars_of("self-stretch")
    } else {
        bracket_chars("self-[", v)
    }
}

/// The class for a parsed `transition-property` value.
pub open spec fn transition_property_class(v: Seq<char>) -> Seq<char> {
    if v == "all"@ {
        "transition-all"@
    } else if v == "none"@ {
        "transition-none"@
    } else if v == "opacity"@ {
        "transition-opacity"@
    } else if v == "transform"@ {
        "transition-transform"@
    } else if v == "box-shadow"@ {
        "transition-shadow"@
    } else {
        bracket("transition-["@, v)
    }
}

fn transition_property_chars(v: &[char]) -> (r: Vec<char>)
    ensures
        r@ == transition_property_class(v@),
{
    if is_lit(v, "all") {
        chars_of("transition-all")
    } else if is_lit(v, "none") {
        chars_of("transition-none")
    } else if is_lit(v, "opacity") {
        chars_of("transition-opacity")
    } else if is_lit(v, "transform") {
        chars_of("transition-transform")
    } else if is_lit(v, "box-shadow") {
        chars_of("transition-shadow")
    } else {
        bracket_chars("transition-[", v)
    }
}

/// The class for a parsed `transition-timing-function` value.
pub open spec fn transition_timing_function_class(v: Seq<char>) -> Seq<char> {
    if v == "linear"@ {
        "ease-linear"@
    } else if v == "ease-in"@ {
        "ease-in"@
    } else if v == "ease-out"@ {
        "ease-out"@
    } else if v == "ease-in-out"@ {
        "ease-in-out"@
    } else {
        bracket("ease-["@, v)
    }
}

fn transition_timing_function_chars(v: &[char]) -> (r: Vec<char>)
    ensures
        r@ == transition_timing_function_class(v@),
{
    if is_lit(v, "linear") {
        chars_of("ease-linear")
    } else if is_lit(v, "ease-in") {
        chars_of("ease-in")
    } else if is_lit(v, "ease-out") {
        chars_of("ease-out")
    } else if is_lit(v, "ease-in-out") {
        chars_of("ease-in-out")
    } else {
        bracket_chars("ease-[", v)
    }
}

/// The class for a parsed `animation-name` value.
pub open spec fn animation_name_class(v: Seq<char>) -> Seq<char> {
    if v == "none"@ {
        "animate-none"@
    } else if v == "spin"@ {
        "animate-spin"@
    } else if v == "ping"@ {
        "animate-ping"@
    } else if v == "pulse"@ {
        "animate-pulse"@
    } else if v == "bounce"@ {
        "animate-bounce"@
    } else {
        bracket("animate-["@, v)
    }
}

fn animation_name_chars(v: &[char]) -> (r: Vec<char>)
    ensures
        r@ == animation_name_class(v@),
{
    if is_lit(v, "none") {
        chars_of("animate-none")
    } else if is_lit(v, "spin") {
        chars_of("animate-spin")
    } else if is_lit(v, "ping") {
        chars_of("animate-ping")
    } else if is_lit(v, "pulse") {
        chars_of("animate-pulse")
    } else if is_lit(v, "bounce") {
        chars_of("animate-bounce")
    } else {
        bracket_chars("animate-[", v)
    }
}

/// The class for a parsed `border-bottom` value.
pub open spec fn border_bottom_class(v: Seq<char>) -> Seq<char> {
    if v == "none"@ {
        "border-b-none"@
    } else {
        bracket("border-b-["@, v)
    }
}

fn border_bottom_chars(v: &[char]) -> (r: Vec<char>)
    ensures
        r@ == border_bottom_class(v@),
{
    if is_lit(v, "none") {
        chars_of("border-b-none")
    } else {
        bracket_chars("border-b-[", v)
    }
}

/// The class for a parsed `border-top` value.
pub open spec fn border_top_class(v: Seq<char>) -> Seq<char> {
    if v == "none"@ {
        "border-t-none"@
    } else {
        bracket("border-t-["@, v)
    }
}

fn border_top_chars(v: &[char]) -> (r: Vec<char>)
    ensures
        r@ == border_top_class(v@),
{
    if is_lit(v, "none") {
        chars_of("border-t-none")
    } else {
        bracket_chars("border-t-[", v)
    }
}

/// The class for a parsed `border-left` value.
pub open spec fn border_left_class(v: Seq<char>) -> Seq<char> {
    if v == "none"@ {
        "border-l-none"@
    } else {
        bracket("border-l-["@, v)
    }
}

fn border_left_chars(v: &[char]) -> (r: Vec<char>)
    ensures
        r@ == border_left_class(v@),
{
    if is_lit(v, "none") {
        chars_of("border-l-none")
    } else {
        bracket_chars("border-l-[", v)
    }
}

/// The class for a parsed `border-right` value.
pub open spec fn border_right_class(v: Seq<char>) -> Seq<char> {
    if v == "none"@ {
        "border-r-none"@
    } else {
        bracket("border-r-["@, v)
    }
}

fn border_right_chars(v: &[char]) -> (r: Vec<char>)
    ensures
        r@ == border_right_class(v@),
{
    if is_lit(v, "none") {
        chars_of("border-r-none")
    } else {
        bracket_chars("border-r-[", v)
    }
}

/// The class for a parsed `position` value.
pub open spec fn position_class(v: Seq<char>) -> Seq<char> {
    if v == "static"@ {
        "static"@
    } else if v == "relative"@ {
        "relative"@
    } else if v == "absolute"@ {
        "absolute"@
    } else if v == "fixed"@ {
        "fixed"@
    } else {
        "sticky"@
    }
}

fn position_chars(v: &[char]) -> (r: Vec<char>)
    ensures
        r@ == position_class(v@),
{
    if is_lit(v, "static") {
        chars_of("static")
    } else if is_lit(v, "relative") {
        chars_of("relative")
    } else if is_lit(v, "absolute") {
        chars_of("absolute")
    } else if is_lit(v, "fixed") {
        chars_of("fixed")
    } else {
        chars_of("sticky")
    }
}

/// The properties that are mapped from their parsed value.
pub open spec fn typed_handles(name: Seq<char>) -> bool {
    name == "flex-direction"@
        || name == "flex-wrap"@
        || name == "justify-content"@
        || name == "align-items"@
        || name == "align-self"@
        || name == "transition-property"@
        || name == "transition-timing-function"@
        || name == "animation-name"@
        || name == "border-bottom"@
        || name == "border-top"@
        || name == "border-left"@
        || name == "border-right"@
        || name == "position"@
        || name == "margin"@
        || name == "padding"@
        || name == "color"@
        || name == "background-color"@
        || name == "background"@
        || name == "border"@
        || name == "border-radius"@
        || name == "border-color"@
        || name == "outline-color"@
        || name == "opacity"@
        || name == "background-image"@
        || name == "z-index"@
        || name == "transition"@
        || name == "transition-duration"@
        || name == "transition-delay"@
        || name == "animation"@
        || name == "animation-duration"@
        || name == "animation-timing-function"@
        || name == "animation-iteration-count"@
        || name == "animation-direction"@
        || name == "animation-fill-mode"@
        || name == "animation-play-state"@
        || name == "animation-delay"@
        || name == "flex-basis"@
        || name == "row-gap"@
        || name == "column-gap"@
        || name == "width"@
        || name == "height"@
        || name == "min-width"@
        || name == "min-height"@
        || name == "border-width"@
        || name == "margin-top"@
        || name == "margin-bottom"@
        || name == "margin-left"@
        || name == "margin-right"@
        || name == "padding-top"@
        || name == "padding-bottom"@
        || name == "padding-left"@
        || name == "padding-right"@
        || name == "flex-grow"@
        || name == "flex-shrink"@
        || name == "gap"@
        || name == "font-size"@
        || name == "font-weight"@
        || name == "box-sizing"@
        || name == "transform"@
}

/// The class of a parsed declaration of one of the `typed_handles` properties.
pub open spec fn typed_spec(p: CssProperty, rem: Decimal) -> Option<Seq<char>> {
    if p.name@ == "flex-direction"@ {
        match p.value {
            Some(d) => Some(flex_direction_class(d@)),
            None => None,
        }
    } else if p.name@ == "flex-wrap"@ {
        match p.value {
            Some(d) => Some(flex_wrap_class(d@)),
            None => None,
        }
    } else if p.name@ == "justify-content"@ {
        match p.value {
            Some(d) => Some(justify_content_class(d@)),
            None => None,
        }
    } else if p.name@ == "align-items"@ {
        match p.value {
            Some(d) => Some(align_items_class(d@)),
            None => None,
        }
    } else if p.name@ == "align-self"@ {
        match p.value {
            Some(d) => Some(align_self_class(d@)),
            None => None,
        }
    } else if p.name@ == "transition-property"@ {
        match p.value {
            Some(d) => Some(transition_property_class(d@)),
            None => None,
        }
    } else if p.name@ == "transition-timing-function"@ {
        match p.value {
            Some(d) => Some(transition_timing_function_class(d@)),
            None => None,
        }
    } else if p.name@ == "animation-name"@ {
        match p.value {
            Some(d) => Some(animation_name_class(d@)),
            None => None,
        }
    } else if p.name@ == "border-bottom"@ {
        match p.value {
            Some(d) => Some(border_bottom_class(d@)),
            None => None,
        }
    } else if p.name@ == "border-top"@ {
        match p.value {
            Some(d) => Some(border_top_class(d@)),
            None => None,
        }
    } else if p.name@ == "border-left"@ {
        match p.value {
            Some(d) => Some(border_left_class(d@)),
            None => None,
        }
    } else if p.name@ == "border-right"@ {
        match p.value {
            Some(d) => Some(border_right_class(d@)),
            None => None,
        }
    } else if p.name@ == "position"@ {
        match p.value {
            Some(d) => Some(position_class(d@)),
            None => None,
        }
    } else if p.name@ == "margin"@ {
        match p.value {
            Some(d) => Some(bracket("m-["@, d@)),
            None => None,
        }
    } else if p.name@ == "padding"@ {
        match p.value {
            Some(d) => Some(bracket("p-["@, d@)),
            None => None,
        }
    } else if p.name@ == "color"@ {
        match p.value {
            Some(d) => Some(bracket("text-["@, d@)),
            None => None,
        }
    } else if p.name@ == "background-color"@ {
        match p.value {
            Some(d) => Some(bracket("bg-["@, d@)),
            None => None,
        }
    } else if p.name@ == "background"@ {
        match p.value {
            Some(d) => Some(bracket("bg-["@, d@)),
            None => None,
        }
    } else if p.name@ == "border"@ {
        match p.value {
            Some(d) => Some(bracket("border-["@, d@)),
            None => None,
        }
    } else if p.name@ == "border-radius"@ {
        match p.value {
            Some(d) => Some(bracket("rounded-["@, d@)),
            None => None,
        }
    } else if p.name@ == "border-color"@ {
        match p.value {
            Some(d) => Some(bracket("border-["@, d@)),
            None => None,
        }
    } else if p.name@ == "outline-color"@ {
        match p.value {
            Some(d) => Some(bracket("outline-["@, d@)),
            None => None,
        }
    } else if p.name@ == "opacity"@ {
        match p.value {
            Some(d) => Some(bracket("opacity-["@, d@)),
            None => None,
        }
    } else if p.name@ == "background-image"@ {
        match p.value {
            Some(d) => Some(bracket("bg-["@, d@)),
            None => None,
        }
    } else if p.name@ == "z-index"@ {
        match p.value {
            Some(d) => Some(bracket("z-["@, d@)),
            None => None,
        }
    } else if p.name@ == "transition"@ {
        match p.value {
            Some(d) => Some(bracket("transition-["@, d@)),
            None => None,
        }
    } else if p.name@ == "transition-duration"@ {
        match p.value {
            Some(d) => Some(bracket("duration-["@, d@)),
            None => None,
        }
    } else if p.name@ == "transition-delay"@ {
        match p.value {
            Some(d) => Some(bracket("delay-["@, d@)),
            None => None,
        }
    } else if p.name@ == "animation"@ {
        match p.value {
            Some(d) => Some(bracket("animate-["@, d@)),
            None => None,
        }
    } else if p.name@ == "animation-duration"@ {
        match p.value {
            Some(d) => Some(bracket("[animation-duration:"@, d@)),
            None => None,
        }
    } else if p.name@ == "animation-timing-function"@ {
        match p.value {
            Some(d) => Some(bracket("[animation-timing-function:"@, d@)),
            None => None,
        }
    } else if p.name@ == "animation-iteration-count"@ {
        match p.value {
            Some(d) => Some(bracket("[animation-iteration-count:"@, d@)),
            None => None,
        }
    } else if p.name@ == "animation-direction"@ {
        match p.value {
            Some(d) => Some(bracket("[animation-direction:"@, d@)),
            None => None,
        }
    } else if p.name@ == "animation-fill-mode"@ {
        match p.value {
            Some(d) => Some(bracket("[animation-fill-mode:"@, d@)),
            None => None,
        }
    } else if p.name@ == "animation-play-state"@ {
        match p.value {
            Some(d) => Some(bracket("[animation-play-state:"@, d@)),
            None => None,
        }
    } else if p.name@ == "animation-delay"@ {
        match p.value {
            Some(d) => Some(bracket("[animation-delay:"@, d@)),
            None => None,
        }
    } else if p.name@ == "flex-basis"@ {
        match p.value {
            Some(d) => Some("basis-"@ + length_spec(d@, rem)),
            None => None,
        }
    } else if p.name@ == "row-gap"@ {
        match p.value {
            Some(d) => Some("gap-y-"@ + length_spec(d@, rem)),
            None => None,
        }
    } else if p.name@ == "column-gap"@ {
        match p.value {
            Some(d) => Some("gap-x-"@ + length_spec(d@, rem)),
            None => None,
        }
    } else if p.name@ == "width"@ {
        match p.value {
            Some(d) => Some("w-"@ + length_spec(d@, rem)),
            None => None,
        }
    } else if p.name@ == "height"@ {
        match p.value {
            Some(d) => Some("h-"@ + length_spec(d@, rem)),
            None => None,
        }
    } else if p.name@ == "min-width"@ {
        match p.value {
            Some(d) => Some("min-w-"@ + length_spec(d@, rem)),
            None => None,
        }
    } else if p.name@ == "min-height"@ {
        match p.value {
            Some(d) => Some("min-h-"@ + length_spec(d@, rem)),
            None => None,
        }
    } else if p.name@ == "border-width"@ {
        match p.value {
            Some(d) => Some("border-"@ + length_spec(d@, rem)),
            None => None,
        }
    } else if p.name@ == "margin-top"@ {
        match p.value {
            Some(d) => Some(spacing_spec("mt"@, length_spec(d@, rem))),
            None => None,
        }
    } else if p.name@ == "margin-bottom"@ {
        match p.value {
            Some(d) => Some(spacing_spec("mb"@, length_spec(d@, rem))),
            None => None,
        }
    } else if p.name@ == "margin-left"@ {
        match p.value {
            Some(d) => Some(spacing_spec("ml"@, length_spec(d@, rem))),
            None => None,
        }
    } else if p.name@ == "margin-right"@ {
        match p.value {
            Some(d) => Some(spacing_spec("mr"@, length_spec(d@, rem))),
            None => None,
        }
    } else if p.name@ == "padding-top"@ {
        match p.value {
            Some(d) => Some(spacing_spec("pt"@, length_spec(d@, rem))),
            None => None,
        }
    } else if p.name@ == "padding-bottom"@ {
        match p.value {
            Some(d) => Some(spacing_spec("pb"@, length_spec(d@, rem))),
            None => None,
        }
    } else if p.name@ == "padding-left"@ {
        match p.value {
            Some(d) => Some(spacing_spec("pl"@, length_spec(d@, rem))),
            None => None,
        }
    } else if p.name@ == "padding-right"@ {
        match p.value {
            Some(d) => Some(spacing_spec("pr"@, length_spec(d@, rem))),
            None => None,
        }
    } else if p.name@ == "flex-grow"@ {
        match p.factor {
            Some(f) => Some("grow-["@ + f@ + "]"@),
            None => None,
        }
    } else if p.name@ == "flex-shrink"@ {
        match p.factor {
            Some(f) => Some("shrink-["@ + f@ + "]"@),
            None => None,
        }
    } else if p.name@ == "gap"@ {
        match p.gap {
            Some((row, col)) => Some(gap_class(row@, col@, rem)),
            None => None,
        }
    } else if p.name@ == "font-size"@ {
        match p.value {
            Some(d) => Some("text-"@ + font_size_spec(d@)),
            None => None,
        }
    } else if p.name@ == "font-weight"@ {
        match p.value {
            Some(d) => Some(font_weight_spec(d@)),
            None => None,
        }
    } else if p.name@ == "box-sizing"@ {
        match p.value {
            Some(d) => Some(d@),
            None => None,
        }
    } else if p.name@ == "transform"@ {
        match p.value {
            Some(d) => Some(transform_class(d@)),
            None => None,
        }
    } else {
        None
    }
}

/// The class of a parsed declaration, when its property is one of `typed_handles`.
fn typed_chars(p: &CssProperty, rem: &Decimal) -> (r: (bool, Option<Vec<char>>))
    requires
        rem.wf(),
        p.wf(),
        p.parsed,
    ensures
        r.0 == typed_handles(p.name@),
        r.0 ==> chars_opt(r.1) == typed_spec(*p, *rem),
{
    let n = chars_of(&p.name);
    let name = n.as_slice();
    if is_lit(name, "flex-direction") {
        (
            true,
            match &p.value {
                Some(d) => {
                    let dc = chars_of(d);
                    let v = dc.as_slice();
                    Some(flex_direction_chars(v))
                },
                None => None,
            },
        )
    } else if is_lit(name, "flex-wrap") {
        (
            true,
            match &p.value {
                Some(d) => {
                    let dc = chars_of(d);
                    let v = dc.as_slice();
                    Some(flex_wrap_chars(v))
                },
                None => None,
            },
        )
    } else if is_lit(name, "justify-content") {
        (
            true,
            match &p.value {
                Some(d) => {
                    let dc = chars_of(d);
                    let v = dc.as_slice();
                    Some(justify_content_chars(v))
                },
                None => None,
            },
        )
    } else if is_lit(name, "align-items") {
        (
            true,
            match &p.value {
                Some(d) => {
                    let dc = chars_of(d);
                    let v = dc.as_slice();
                    Some(align_items_chars(v))
                },
                None => None,
            },
        )
    } else if is_lit(name, "align-self") {
        (
            true,
            match &p.value {
                Some(d) => {
                    let dc = chars_of(d);
                    let v = dc.as_slice();
                    Some(align_self_chars(v))
                },
                None => None,
            },
        )
    } else if is_lit(name, "transition-property") {
        (
            true,
            match &p.value {
                Some(d) => {
                    let dc = chars_of(d);
                    let v = dc.as_slice();
                    Some(transition_property_chars(v))
                },
                None => None,
            },
        )
    } else if is_lit(name, "transition-timing-function") {
        (
            true,
            match &p.value {
                Some(d) => {
                    let dc = chars_of(d);
                    let v = dc.as_slice();
                    Some(transition_timing_function_chars(v))
                },
                None => None,
            },
        )
    } else if is_lit(name, "animation-name") {
        (
            true,
            match &p.value {
                Some(d) => {
                    let dc = chars_of(d);
                    let v = dc.as_slice();
                    Some(animation_name_chars(v))
                },
                None => None,
            },
        )
    } else if is_lit(name, "border-bottom") {
        (
            true,
            match &p.value {
                Some(d) => {
                    let dc = chars_of(d);
                    let v = dc.as_slice();
                    Some(border_bottom_chars(v))
                },
                None => None,
            },
        )
    } else if is_lit(name, "border-top") {
        (
            true,
            match &p.value {
                Some(d) => {
                    let dc = chars_of(d);
                    let v = dc.as_slice();
                    Some(border_top_chars(v))
                },
                None => None,
            },
        )
    } else if is_lit(name, "border-left") {
        (
            true,
            match &p.value {
                Some(d) => {
                    let dc = chars_of(d);
                    let v = dc.as_slice();
                    Some(border_left_chars(v))
                },
                None => None,
            },
        )
    } else if is_lit(name, "border-right") {
        (
            true,
            match &p.value {
                Some(d) => {
                    let dc = chars_of(d);
                    let v = dc.as_slice();
                    Some(border_right_chars(v))
                },
                None => None,
            },
        )
    } else if is_lit(name, "position") {
        (
            true,
            match &p.value {
                Some(d) => {
                    let dc = chars_of(d);
                    let v = dc.as_slice();
                    Some(position_chars(v))
                },
                None => None,
            },
        )
    } else if is_lit(name, "margin") {
        (
            true,
            match &p.value {
                Some(d) => {
                    let dc = chars_of(d);
                    let v = dc.as_slice();
                    Some(bracket_chars("m-[", v))
                },
                None => None,
            },
        )
    } else if is_lit(name, "padding") {
        (
            true,
            match &p.value {
                Some(d) => {
                    let dc = chars_of(d);
                    let v = dc.as_slice();
                    Some(bracket_chars("p-[", v))
                },
                None => None,
            },
        )
    } else if is_lit(name, "color") {
        (
            true,
            match &p.value {
                Some(d) => {
                    let dc = chars_of(d);
                    let v = dc.as_slice();
                    Some(bracket_chars("text-[", v))
                },
                None => None,
            },
        )
    } else if is_lit(name, "background-color") {
        (
            true,
            match &p.value {
                Some(d) => {
                    let dc = chars_of(d);
                    let v = dc.as_slice();
                    Some(bracket_chars("bg-[", v))
                },
                None => None,
            },
        )
    } else if is_lit(name, "background") {
        (
            true,
            match &p.value {
                Some(d) => {
                    let dc = chars_of(d);
                    let v = dc.as_slice();
                    Some(bracket_chars("bg-[", v))
                },
                None => None,
            },
        )
    } else if is_lit(name, "border") {
        (
            true,
            match &p.value {
                Some(d) => {
                    let dc = chars_of(d);
                    let v = dc.as_slice();
                    Some(bracket_chars("border-[", v))
                },
                None => None,
            },
        )
    } else if is_lit(name, "border-radius") {
        (
            true,
            match &p.value {
                Some(d) => {
                    let dc = chars_of(d);
                    let v = dc.as_slice();
                    Some(bracket_chars("rounded-[", v))
                },
                None => None,
            },
        )
    } else if is_lit(name, "border-color") {
        (
            true,
            match &p.value {
                Some(d) => {
                    let dc = chars_of(d);
                    let v = dc.as_slice();
                    Some(bracket_chars("border-[", v))
                },
                None => None,
            },
        )
    } else if is_lit(name, "outline-color") {
        (
            true,
            match &p.value {
                Some(d) => {
                    let dc = chars_of(d);
                    let v = dc.as_slice();
                    Some(bracket_chars("outline-[", v))
                },
                None => None,
            },
        )
    } else if is_lit(name, "opacity") {
        (
            true,
            match &p.value {
                Some(d) => {
                    let dc = chars_of(d);
                    let v = dc.as_slice();
                    Some(bracket_chars("opacity-[", v))
                },
                None => None,
            },
        )
    } else if is_lit(name, "background-image") {
        (
            true,
            match &p.value {
                Some(d) => {
                    let dc = chars_of(d);
                    let v = dc.as_slice();
                    Some(bracket_chars("bg-[", v))
                },
                None => None,
            },
        )
    } else if is_lit(name, "z-index") {
        (
            true,
            match &p.value {
                Some(d) => {
                    let dc = chars_of(d);
                    let v = dc.as_slice();
                    Some(bracket_chars("z-[", v))
                },
                None => None,
            },
        )
    } else if is_lit(name, "transition") {
        (
            true,
            match &p.value {
                Some(d) => {
                    let dc = chars_of(d);
                    let v = dc.as_slice();
                    Some(bracket_chars("transition-[", v))
                },
                None => None,
            },
        )
    } else if is_lit(name, "transition-duration") {
        (
            true,
            match &p.value {
                Some(d) => {
                    let dc = chars_of(d);
                    let v = dc.as_slice();
                    Some(bracket_chars("duration-[", v))
                },
                None => None,
            },
        )
    } else if is_lit(name, "transition-delay") {
        (
            true,
            match &p.value {
                Some(d) => {
                    let dc = chars_of(d);
                    let v = dc.as_slice();
                    Some(bracket_chars("delay-[", v))
                },
                None => None,
            },
        )
    } else if is_lit(name, "animation") {
        (
            true,
            match &p.value {
                Some(d) => {
                    let dc = chars_of(d);
                    let v = dc.as_slice();
                    Some(bracket_chars("animate-[", v))
                },
                None => None,
            },
        )
    } else if is_lit(name, "animation-duration") {
        (
            true,
            match &p.value {
                Some(d) => {
                    let dc = chars_of(d);
                    let v = dc.as_slice();
                    Some(bracket_chars("[animation-duration:", v))
                },
                None => None,
            },
        )
    } else if is_lit(name, "animation-timing-function") {
        (
            true,
            match &p.value {
                Some(d) => {
                    let dc = chars_of(d);
                    let v = dc.as_slice();
                    Some(bracket_chars("[animation-timing-function:", v))
                },
                None => None,
            },
        )
    } else if is_lit(name, "animation-iteration-count") {
        (
            true,
            match &p.value {
                Some(d) => {
                    let dc = chars_of(d);
                    let v = dc.as_slice();
                    Some(bracket_chars("[animation-iteration-count:", v))
                },
                None => None,
            },
        )
    } else if is_lit(name, "animation-direction") {
        (
            true,
            match &p.value {
                Some(d) => {
                    let dc = chars_of(d);
                    let v = dc.as_slice();
                    Some(bracket_chars("[animation-direction:", v))
                },
                None => None,
            },
        )
    } else if is_lit(name, "animation-fill-mode") {
        (
            true,
            match &p.value {
                Some(d) => {
                    let dc = chars_of(d);
                    let v = dc.as_slice();
                    Some(bracket_chars("[animation-fill-mode:", v))
                },
                None => None,
            },
        )
    } else if is_lit(name, "animation-play-state") {
        (
            true,
            match &p.value {
                Some(d) => {
                    let dc = chars_of(d);
                    let v = dc.as_slice();
                    Some(bracket_chars("[animation-play-state:", v))
                },
                None => None,
            },
        )
    } else if is_lit(name, "animation-delay") {
        (
            true,
            match &p.value {
                Some(d) => {
                    let dc = chars_of(d);
                    let v = dc.as_slice();
                    Some(bracket_chars("[animation-delay:", v))
                },
                None => None,
            },
        )
    } else if is_lit(name, "flex-basis") {
        (
            true,
            match &p.value {
                Some(d) => {
                    let dc = chars_of(d);
                    let v = dc.as_slice();
                    Some({
                        let mut r = chars_of("basis-");
                        let l = length_chars(v, rem);
                        push_all(&mut r, l.as_slice());
                        r
                    })
                },
                None => None,
            },
        )
    } else if is_lit(name, "row-gap") {
        (
            true,
            match &p.value {
                Some(d) => {
                    let dc = chars_of(d);
                    let v = dc.as_slice();
                    Some({
                        let mut r = chars_of("gap-y-");
                        let l = length_chars(v, rem);
                        push_all(&mut r, l.as_slice());
                        r
                    })
                },
                None => None,
            },
        )
    } else if is_lit(name, "column-gap") {
        (
            true,
            match &p.value {
                Some(d) => {
                    let dc = chars_of(d);
                    let v = dc.as_slice();
                    Some({
                        let mut r = chars_of("gap-x-");
                        let l = length_chars(v, rem);
                        push_all(&mut r, l.as_slice());
                        r
                    })
                },
                None => None,
            },
        )
    } else if is_lit(name, "width") {
        (
            true,
            match &p.value {
                Some(d) => {
                    let dc = chars_of(d);
                    let v = dc.as_slice();
                    Some({
                        let mut r = chars_of("w-");
                        let l = length_chars(v, rem);
                        push_all(&mut r, l.as_slice());
                        r
                    })
                },
                None => None,
            },
        )
    } else if is_lit(name, "height") {
        (
            true,
            match &p.value {
                Some(d) => {
                    let dc = chars_of(d);
                    let v = dc.as_slice();
                    Some({
                        let mut r = chars_of("h-");
                        let l = length_chars(v, rem);
                        push_all(&mut r, l.as_slice());
                        r
                    })
                },
                None => None,
            },
        )
    } else if is_lit(name, "min-width") {
        (
            true,
            match &p.value {
                Some(d) => {
                    let dc = chars_of(d);
                    let v = dc.as_slice();
                    Some({
                        let mut r = chars_of("min-w-");
                        let l = length_chars(v, rem);
                        push_all(&mut r, l.as_slice());
                        r
                    })
                },
                None => None,
            },
        )
    } else if is_lit(name, "min-height") {
        (
            true,
            match &p.value {
                Some(d) => {
                    let dc = chars_of(d);
                    let v = dc.as_slice();
                    Some({
                        let mut r = chars_of("min-h-");
                        let l = length_chars(v, rem);
                        push_all(&mut r, l.as_slice());
                        r
                    })
                },
                None => None,
            },
        )
    } else if is_lit(name, "border-width") {
        (
            true,
            match &p.value {
                Some(d) => {
                    let dc = chars_of(d);
                    let v = dc.as_slice();
                    Some({
                        let mut r = chars_of("border-");
                        let l = length_chars(v, rem);
                        push_all(&mut r, l.as_slice());
                        r
                    })
                },
                None => None,
            },
        )
    } else if is_lit(name, "margin-top") {
        (
            true,
            match &p.value {
                Some(d) => {
                    let dc = chars_of(d);
                    let v = dc.as_slice();
                    Some({
                        let pc = chars_of("mt");
                        let l = length_chars(v, rem);
                        spacing_chars(pc.as_slice(), l.as_slice())
                    })
                },
                None => None,
            },
        )
    } else if is_lit(name, "margin-bottom") {
        (
            true,
            match &p.value {
                Some(d) => {
                    let dc = chars_of(d);
                    let v = dc.as_slice();
                    Some({
                        let pc = chars_of("mb");
                        let l = length_chars(v, rem);
                        spacing_chars(pc.as_slice(), l.as_slice())
                    })
                },
                None => None,
            },
        )
    } else if is_lit(name, "margin-left") {
        (
            true,
            match &p.value {
                Some(d) => {
                    let dc = chars_of(d);
                    let v = dc.as_slice();
                    Some({
                        let pc = chars_of("ml");
                        let l = length_chars(v, rem);
                        spacing_chars(pc.as_slice(), l.as_slice())
                    })
                },
                None => None,
            },
        )
    } else if is_lit(name, "margin-right") {
        (
            true,
            match &p.value {
                Some(d) => {
                    let dc = chars_of(d);
                    let v = dc.as_slice();
                    Some({
                        let pc = chars_of("mr");
                        let l = length_chars(v, rem);
                        spacing_chars(pc.as_slice(), l.as_slice())
                    })
                },
                None => None,
            },
        )
    } else if is_lit(name, "padding-top") {
        (
            true,
            match &p.value {
                Some(d) => {
                    let dc = chars_of(d);
                    let v = dc.as_slice();
                    Some({
                        let pc = chars_of("pt");
                        let l = length_chars(v, rem);
                        spacing_chars(pc.as_slice(), l.as_slice())
                    })
                },
                None => None,
            },
        )
    } else if is_lit(name, "padding-bottom") {
        (
            true,
            match &p.value {
                Some(d) => {
                    let dc = chars_of(d);
                    let v = dc.as_slice();
                    Some({
                        let pc = chars_of("pb");
                        let l = length_chars(v, rem);
                        spacing_chars(pc.as_slice(), l.as_slice())
                    })
                },
                None => None,
            },
        )
    } else if is_lit(name, "padding-left") {
        (
            true,
            match &p.value {
                Some(d) => {
                    let dc = chars_of(d);
                    let v = dc.as_slice();
                    Some({
                        let pc = chars_of("pl");
                        let l = length_chars(v, rem);
                        spacing_chars(pc.as_slice(), l.as_slice())
                    })
                },
                None => None,
            },
        )
    } else if is_lit(name, "padding-right") {
        (
            true,
            match &p.value {
                Some(d) => {
                    let dc = chars_of(d);
                    let v = dc.as_slice();
                    Some({
                        let pc = chars_of("pr");
                        let l = length_chars(v, rem);
                        spacing_chars(pc.as_slice(), l.as_slice())
                    })
                },
                None => None,
            },
        )
    } else if is_lit(name, "flex-grow") {
        (
            true,
            match &p.factor {
                Some(f) => {
                    let mut r = chars_of("grow-[");
                    let fc = chars_of(f);
                    push_all(&mut r, fc.as_slice());
                    push_str(&mut r, "]");
                    Some(r)
                },
                None => None,
            },
        )
    } else if is_lit(name, "flex-shrink") {
        (
            true,
            match &p.factor {
                Some(f) => {
                    let mut r = chars_of("shrink-[");
                    let fc = chars_of(f);
                    push_all(&mut r, fc.as_slice());
                    push_str(&mut r, "]");
                    Some(r)
                },
                None => None,
            },
        )
    } else if is_lit(name, "gap") {
        (
            true,
            match &p.gap {
                Some((row, col)) => {
                    let rc = chars_of(row);
                    let cc = chars_of(col);
                    Some(gap_chars(rc.as_slice(), cc.as_slice(), rem))
                },
                None => None,
            },
        )
    } else if is_lit(name, "font-size") {
        (
            true,
            match &p.value {
                Some(d) => {
                    let dc = chars_of(d);
                    let v = dc.as_slice();
                    Some({
                        let mut r = chars_of("text-");
                        let f = font_size_chars(v);
                        push_all(&mut r, f.as_slice());
                        r
                    })
                },
                None => None,
            },
        )
    } else if is_lit(name, "font-weight") {
        (
            true,
            match &p.value {
                Some(d) => {
                    let dc = chars_of(d);
                    let v = dc.as_slice();
                    Some(font_weight_chars(v))
                },
                None => None,
            },
        )
    } else if is_lit(name, "box-sizing") {
        (
            true,
            match &p.value {
                Some(d) => {
                    let dc = chars_of(d);
                    let v = dc.as_slice();
                    Some(chars_of(d))
                },
                None => None,
            },
        )
    } else if is_lit(name, "transform") {
        (
            true,
            match &p.value {
                Some(d) => {
                    let dc = chars_of(d);
                    let v = dc.as_slice();
                    Some(transform_chars(v))
                },
                None => None,
            },
        )
    } else {
        (false, None)
    }
}
/// The name and value of a printed declaration `name: value;`, each
/// trimmed, the value without its trailing semicolons; `None` without a colon.
pub open spec fn split_declaration(css: Seq<char>) -> Option<(Seq<char>, Seq<char>)> {
    match index_of(css, ':') {
        Some(i) => Some(
            (
                trim(css.subrange(0, i)),
                trim_end_char(trim(css.subrange(i + 1, css.len() as int)), ';'),
            ),
        ),
        None => None,
    }
}

pub(crate) fn split_declaration_chars(css: &[char]) -> (r: Option<(Vec<char>, Vec<char>)>)
    ensures
        match r {
            Some((n, v)) => split_declaration(css@) == Some((n@, v@)),
            None => split_declaration(css@) is None,
        },
{
    match index_of_char(css, ':') {
        Some(i) => {
            assert(i < css.len());
            let head = slice_chars(css, 0, i);
            let tail = slice_chars(css, i + 1, css.len());
            let name = trim_chars(head.as_slice());
            let t = trim_chars(tail.as_slice());
            let value = trim_end_char_chars(t.as_slice(), ';');
            Some((name, value))
        },
        None => None,
    }
}

/// The class of a declaration mapped from its printed text.
pub open spec fn text_class(css: Seq<char>) -> Option<Seq<char>> {
    match split_declaration(css) {
        Some((name, val)) => generic_spec(name, val),
        None => None,
    }
}

/// The class of a declaration, before variants and `!important`: from its
/// parsed value where `typed_handles` holds of a parsed property, else from
/// its printed text.
pub open spec fn class_spec(p: CssProperty, rem: Decimal) -> Option<Seq<char>> {
    if p.parsed && typed_handles(p.name@) {
        typed_spec(p, rem)
    } else {
        text_class(p.css@)
    }
}

/// The prefixes of the variants, in order.
pub open spec fn variants_prefix(vs: Seq<TailwindVariant>) -> Seq<char>
    decreases vs.len(),
{
    if vs.len() == 0 {
        Seq::empty()
    } else {
        variants_prefix(vs.drop_last()) + vs.last().prefix_spec()
    }
}

/// The prefixes of variants are those of their keys.
pub proof fn lemma_variants_prefix_keys(vs: Seq<TailwindVariant>)
    ensures
        variants_prefix(vs) == keys_prefix(vs.map_values(|v: TailwindVariant| v.key())),
    decreases vs.len(),
{
    if vs.len() > 0 {
        lemma_variants_prefix_keys(vs.drop_last());
        vs.last().lemma_prefix_of_key();
        assert(vs.map_values(|v: TailwindVariant| v.key()).drop_last() =~= vs.drop_last().map_values(
            |v: TailwindVariant| v.key(),
        ));
    }
}

/// `!` for an important declaration.
pub open spec fn bang(important: bool) -> Seq<char> {
    if important {
        "!"@
    } else {
        Seq::empty()
    }
}

/// The side letter of a padding or margin longhand: `t`, `b`, `l`, `r`, or
/// nothing.
pub open spec fn side(name: Seq<char>, base: Seq<char>) -> Seq<char> {
    if name == base + "-top"@ {
        "t"@
    } else if name == base + "-bottom"@ {
        "b"@
    } else if name == base + "-left"@ {
        "l"@
    } else if name == base + "-right"@ {
        "r"@
    } else {
        Seq::empty()
    }
}

/// The class of a declaration whose `var()` references resolved to the text
/// `resolved`: `bg-`, `text-`, `p`/`m` with the resolved value, or the
/// whole resolved declaration as an arbitrary property; `!` after it for an
/// important declaration.
pub open spec fn resolved_class(prefix: Seq<char>, resolved: Seq<char>, important: bool) -> Option<
    Seq<char>,
> {
    match split_declaration(resolved) {
        Some((name, val)) => Some(
            if name == "background-color"@ || name == "background"@ {
                prefix + bracket("bg-["@, val)
            } else if name == "color"@ {
                prefix + bracket("text-["@, val)
            } else if starts_with(name, "padding"@) {
                prefix + "p"@ + side(name, "padding"@) + bracket("-["@, val)
            } else if starts_with(name, "margin"@) {
                prefix + "m"@ + side(name, "margin"@) + bracket("-["@, val)
            } else {
                prefix + "["@ + escape_spec(replace_all(resolved, ": "@, ":"@)) + "]"@
            } + bang(important),
        ),
        None => None,
    }
}

/// The Tailwind class of the declaration `p` under variants whose prefixes
/// make `prefix`.
///
/// A custom property definition gives none. Where resolving `p`'s `var()`
/// references changes its text, the class comes from the resolved text;
/// otherwise from `class_spec`, with the variants' prefixes before it and
/// `!` after it for an important declaration.
pub open spec fn map_spec(
    p: CssProperty,
    important: bool,
    prefix: Seq<char>,
    rem: Decimal,
    vars: VariableMap,
) -> Option<Seq<char>> {
    let resolved = resolve_spec(p.css@, vars);
    if starts_with(p.css@, "--"@) {
        None
    } else if resolved != p.css@ && split_declaration(resolved) is Some {
        resolved_class(prefix, resolved, important)
    } else {
        match class_spec(p, rem) {
            Some(s) => Some(prefix + s + bang(important)),
            None => None,
        }
    }
}

/// An important declaration gives the class of the same declaration
/// without `!important`, with `!` after it (Tailwind v4's important
/// modifier); a declaration that gives no class gives none either way.
pub proof fn law_important_suffix(p: CssProperty, prefix: Seq<char>, rem: Decimal, vars: VariableMap)
    ensures
        map_spec(p, true, prefix, rem, vars) == match map_spec(p, false, prefix, rem, vars) {
            Some(c) => Some(c + "!"@),
            None => None::<Seq<char>>,
        },
{
    assert(bang(false) =~= Seq::<char>::empty());
    match map_spec(p, false, prefix, rem, vars) {
        Some(c) => {
            assert(c + bang(false) =~= c);
        },
        None => {},
    }
    let resolved = resolve_spec(p.css@, vars);
    if !starts_with(p.css@, "--"@) {
        if resolved != p.css@ && split_declaration(resolved) is Some {
            let (name, val) = split_declaration(resolved)->0;
            let body = if name == "background-color"@ || name == "background"@ {
                prefix + bracket("bg-["@, val)
            } else if name == "color"@ {
                prefix + bracket("text-["@, val)
            } else if starts_with(name, "padding"@) {
                prefix + "p"@ + side(name, "padding"@) + bracket("-["@, val)
            } else if starts_with(name, "margin"@) {
                prefix + "m"@ + side(name, "margin"@) + bracket("-["@, val)
            } else {
                prefix + "["@ + escape_spec(replace_all(resolved, ": "@, ":"@)) + "]"@
            };
            assert(body + bang(false) =~= body);
        } else {
            match class_spec(p, rem) {
                Some(s) => {
                    assert(prefix + s + bang(false) =~= prefix + s);
                },
                None => {},
            }
        }
    }
}

fn side_chars(name: &[char], base: &str) -> (r: Vec<char>)
    ensures
        r@ == side(name@, base@),
{
    let mut t = chars_of(base);
    push_str(&mut t, "-top");
    if eq_chars(name, t.as_slice()) {
        return chars_of("t");
    }
    let mut b = chars_of(base);
    push_str(&mut b, "-bottom");
    if eq_chars(name, b.as_slice()) {
        return chars_of("b");
    }
    let mut l = chars_of(base);
    push_str(&mut l, "-left");
    if eq_chars(name, l.as_slice()) {
        return chars_of("l");
    }
    let mut r = chars_of(base);
    push_str(&mut r, "-right");
    if eq_chars(name, r.as_slice()) {
        return chars_of("r");
    }
    Vec::new()
}

fn resolved_chars(prefix: &[char], resolved: &[char], important: bool) -> (r: Option<Vec<char>>)
    ensures
        chars_opt(r) == resolved_class(prefix@, resolved@, important),
{
    match split_declaration_chars(resolved) {
        Some((name, val)) => {
            let n = name.as_slice();
            let mut out: Vec<char> = Vec::new();
            push_all(&mut out, prefix);
            if is_lit(n, "background-color") || is_lit(n, "background") {
                let b = bracket_chars("bg-[", val.as_slice());
                push_all(&mut out, b.as_slice());
            } else if is_lit(n, "color") {
                let b = bracket_chars("text-[", val.as_slice());
                push_all(&mut out, b.as_slice());
            } else if starts_with_lit(n, "padding") {
                push_str(&mut out, "p");
                let s = side_chars(n, "padding");
                push_all(&mut out, s.as_slice());
                let b = bracket_chars("-[", val.as_slice());
                push_all(&mut out, b.as_slice());
            } else if starts_with_lit(n, "margin") {
                push_str(&mut out, "m");
                let s = side_chars(n, "margin");
                push_all(&mut out, s.as_slice());
                let b = bracket_chars("-[", val.as_slice());
                push_all(&mut out, b.as_slice());
            } else {
                push_str(&mut out, "[");
                let from = chars_of(": ");
                proof {
                    reveal_strlit(": ");
                }
                let to = chars_of(":");
                let joined = replace_all_chars(resolved, from.as_slice(), to.as_slice());
                let e = escape_chars(joined.as_slice());
                push_all(&mut out, e.as_slice());
                push_str(&mut out, "]");
            }
            if important {
                push_str(&mut out, "!");
            }
            Some(out)
        },
        None => None,
    }
}

fn class_chars(p: &CssProperty, rem: &Decimal) -> (r: Option<Vec<char>>)
    requires
        rem.wf(),
        p.wf(),
    ensures
        chars_opt(r) == class_spec(*p, *rem),
{
    if p.parsed {
        let (handled, r) = typed_chars(p, rem);
        if handled {
            return r;
        }
    }
    let css = chars_of(&p.css);
    match split_declaration_chars(css.as_slice()) {
        Some((name, val)) => generic_chars(name.as_slice(), val.as_slice()),
        None => None,
    }
}

/// The prefixes of `variants`, in order, e.g. `md:hover:`.
pub fn variants_prefix_chars(variants: &[TailwindVariant]) -> (r: Vec<char>)
    ensures
        r@ == variants_prefix(variants@),
{
    let mut r: Vec<char> = Vec::new();
    let mut i: usize = 0;
    while i < variants.len()
        invariant
            i <= variants.len(),
            r@ == variants_prefix(variants@.subrange(0, i as int)),
        decreases variants.len() - i,
    {
        let p = variants[i].to_prefix();
        let pc = chars_of(&p);
        push_all(&mut r, pc.as_slice());
        proof {
            assert(variants@.subrange(0, i + 1).drop_last() =~= variants@.subrange(0, i as int));
        }
        i = i + 1;
    }
    assert(variants@.subrange(0, variants@.len() as int) =~= variants@);
    r
}

/// Maps a CSS declaration to its Tailwind utility class, with the variants'
/// prefixes (e.g. `hover:`) in front and `!` behind an important one.
///
/// Sizes are converted at `rem_scale` spacing units per rem (16px); `var()`
/// references are resolved from `variable_map` first. A custom property
/// definition, or a property without a Tailwind equivalent, gives `None`.
pub fn map_property(
    property: &CssProperty,
    important: bool,
    variants: &[TailwindVariant],
    rem_scale: &Decimal,
    variable_map: &VariableMap,
) -> (r: Option<String>)
    requires
        rem_scale.wf(),
        property.wf(),
    ensures
        match r {
            Some(s) => map_spec(
                *property,
                important,
                variants_prefix(variants@),
                *rem_scale,
                *variable_map,
            ) == Some(s@),
            None => map_spec(
                *property,
                important,
                variants_prefix(variants@),
                *rem_scale,
                *variable_map,
            ) is None,
        },
{
    let prefix = variants_prefix_chars(variants);
    let resolved = resolve_vars(&property.css, variable_map);
    let css = chars_of(&property.css);
    let rc = chars_of(&resolved);
    if starts_with_lit(css.as_slice(), "--") {
        return None;
    }
    if !eq_chars(rc.as_slice(), css.as_slice()) {
        if let Some(out) = resolved_chars(prefix.as_slice(), rc.as_slice(), important) {
            return Some(string_of(out.as_slice()));
        }
    }
    match class_chars(property, rem_scale) {
        Some(s) => {
            let mut out = prefix;
            push_all(&mut out, s.as_slice());
            if important {
                push_str(&mut out, "!");
            }
            Some(string_of(out.as_slice()))
        },
        None => None,
    }
}

/// Tailwind's classes for the values of `flex-direction`: `row` gives
/// `flex-row`, `row-reverse` `flex-row-reverse`, `column` `flex-col` and
/// `column-reverse` `flex-col-reverse`.
pub open spec fn flex_direction_pair(value: Seq<char>, class: Seq<char>) -> bool {
    ||| value == "row"@ && class == "flex-row"@
    ||| value == "row-reverse"@ && class == "flex-row-reverse"@
    ||| value == "column"@ && class == "flex-col"@
    ||| value == "column-reverse"@ && class == "flex-col-reverse"@
}

/// A parsed `flex-direction` declaration without `var()` references maps
/// to Tailwind's class for its value, after the variants' prefixes and
/// before `!` for an important one: `column` to `flex-col`, `row` to
/// `flex-row`, and so on.
pub proof fn law_flex_direction_classes(
    p: CssProperty,
    value: Seq<char>,
    class: Seq<char>,
    important: bool,
    prefix: Seq<char>,
    rem: Decimal,
    vars: VariableMap,
)
    requires
        p.parsed,
        p.name@ == "flex-direction"@,
        p.value matches Some(d) && d@ == value,
        !starts_with(p.css@, "--"@),
        next_var(p.css@, 0) is None,
        flex_direction_pair(value, class),
    ensures
        map_spec(p, important, prefix, rem, vars) == Some(prefix + class + bang(important)),
{
    reveal_strlit("flex-direction");
    reveal_strlit("row");
    reveal_strlit("row-reverse");
    reveal_strlit("column");
    reveal_strlit("column-reverse");
    reveal_strlit("flex-row");
    reveal_strlit("flex-row-reverse");
    reveal_strlit("flex-col");
    reveal_strlit("flex-col-reverse");
    law_no_reference_unchanged(p.css@, vars);
    assert(typed_handles(p.name@));
    if value == "row"@ {
        assert(class == "flex-row"@) by {
            assert(value.len() != "row-reverse"@.len());
            assert(value.len() != "column"@.len());
            assert(value.len() != "column-reverse"@.len());
        }
    } else if value == "row-reverse"@ {
        assert(class == "flex-row-reverse"@) by {
            assert(value.len() != "row"@.len());
            assert(value.len() != "column"@.len());
            assert(value.len() != "column-reverse"@.len());
        }
    } else if value == "column"@ {
        assert(class == "flex-col"@) by {
            assert(value.len() != "row"@.len());
            assert(value.len() != "row-reverse"@.len());
            assert(value.len() != "column-reverse"@.len());
        }
    } else {
        assert(value == "column-reverse"@);
        assert(class == "flex-col-reverse"@);
        assert(value.len() != "row"@.len());
        assert(value.len() != "row-reverse"@.len());
        assert(value.len() != "column"@.len());
    }
    assert(flex_direction_class(value) == class);
    assert(typed_spec(p, rem) == Some(class));
    assert(class_spec(p, rem) == Some(class));
}

/// Tailwind's classes for the keyword values of `flex-wrap`,
/// `justify-content`, `align-items`, `align-self`, `transition-property`,
/// `transition-timing-function` and `position`: the property `name` with
/// the value `value` gives the class `class`.
pub open spec fn keyword_class(name: Seq<char>, value: Seq<char>, class: Seq<char>) -> bool {
    ||| name == "flex-wrap"@ && value == "wrap"@ && class == "flex-wrap"@
    ||| name == "flex-wrap"@ && value == "wrap-reverse"@ && class == "flex-wrap-reverse"@
    ||| name == "flex-wrap"@ && value == "nowrap"@ && class == "flex-nowrap"@
    ||| name == "justify-content"@ && value == "flex-start"@ && class == "justify-start"@
    ||| name == "justify-content"@ && value == "start"@ && class == "justify-start"@
    ||| name == "justify-content"@ && value == "flex-end"@ && class == "justify-end"@
    ||| name == "justify-content"@ && value == "end"@ && class == "justify-end"@
    ||| name == "justify-content"@ && value == "center"@ && class == "justify-center"@
    ||| name == "justify-content"@ && value == "space-between"@ && class == "justify-between"@
    ||| name == "justify-content"@ && value == "between"@ && class == "justify-between"@
    ||| name == "justify-content"@ && value == "space-around"@ && class == "justify-around"@
    ||| name == "justify-content"@ && value == "around"@ && class == "justify-around"@
    ||| name == "justify-content"@ && value == "space-evenly"@ && class == "justify-evenly"@
    ||| name == "justify-content"@ && value == "evenly"@ && class == "justify-evenly"@
    ||| name == "align-items"@ && value == "flex-start"@ && class == "items-start"@
    ||| name == "align-items"@ && value == "start"@ && class == "items-start"@
    ||| name == "align-items"@ && value == "flex-end"@ && class == "items-end"@
    ||| name == "align-items"@ && value == "end"@ && class == "items-end"@
    ||| name == "align-items"@ && value == "center"@ && class == "items-center"@
    ||| name == "align-items"@ && value == "baseline"@ && class == "items-baseline"@
    ||| name == "align-items"@ && value == "stretch"@ && class == "items-stretch"@
    ||| name == "align-self"@ && value == "auto"@ && class == "self-auto"@
    ||| name == "align-self"@ && value == "flex-start"@ && class == "self-start"@
    ||| name == "align-self"@ && value == "start"@ && class == "self-start"@
    ||| name == "align-self"@ && value == "flex-end"@ && class == "self-end"@
    ||| name == "align-self"@ && value == "end"@ && class == "self-end"@
    ||| name == "align-self"@ && value == "center"@ && class == "self-center"@
    ||| name == "align-self"@ && value == "baseline"@ && class == "self-baseline"@
    ||| name == "align-self"@ && value == "stretch"@ && class == "self-stretch"@
    ||| name == "transition-property"@ && value == "all"@ && class == "transition-all"@
    ||| name == "transition-property"@ && value == "none"@ && class == "transition-none"@
    ||| name == "transition-property"@ && value == "opacity"@ && class == "transition-opacity"@
    ||| name == "transition-property"@ && value == "transform"@ && class == "transition-transform"@
    ||| name == "transition-property"@ && value == "box-shadow"@ && class == "transition-shadow"@
    ||| name == "transition-timing-function"@ && value == "linear"@ && class == "ease-linear"@
    ||| name == "transition-timing-function"@ && value == "ease-in"@ && class == "ease-in"@
    ||| name == "transition-timing-function"@ && value == "ease-out"@ && class == "ease-out"@
    ||| name == "transition-timing-function"@ && value == "ease-in-out"@ && class == "ease-in-out"@
    ||| name == "position"@ && value == "static"@ && class == "static"@
    ||| name == "position"@ && value == "relative"@ && class == "relative"@
    ||| name == "position"@ && value == "absolute"@ && class == "absolute"@
    ||| name == "position"@ && value == "fixed"@ && class == "fixed"@
    ||| name == "position"@ && value == "sticky"@ && class == "sticky"@
}

proof fn lemma_keyword_flex_wrap(p: CssProperty, value: Seq<char>, class: Seq<char>, rem: Decimal)
    requires
        p.parsed,
        p.name@ == "flex-wrap"@,
        p.value matches Some(d) && d@ == value,
        keyword_class("flex-wrap"@, value, class),
    ensures
        class_spec(p, rem) == Some(class),
{
    reveal_strlit("align-items");
    reveal_strlit("align-self");
    reveal_strlit("flex-direction");
    reveal_strlit("flex-nowrap");
    reveal_strlit("flex-wrap");
    reveal_strlit("flex-wrap-reverse");
    reveal_strlit("justify-content");
    reveal_strlit("nowrap");
    reveal_strlit("position");
    reveal_strlit("transition-property");
    reveal_strlit("transition-timing-function");
    reveal_strlit("wrap");
    reveal_strlit("wrap-reverse");
    let n = p.name@;
    assert(n != "align-items"@) by { assert(n.len() != "align-items"@.len()); }
    assert(n != "align-self"@) by { assert(n.len() != "align-self"@.len()); }
    assert(n != "flex-direction"@) by { assert(n.len() != "flex-direction"@.len()); }
    assert(n != "justify-content"@) by { assert(n.len() != "justify-content"@.len()); }
    assert(n != "position"@) by { assert(n.len() != "position"@.len()); }
    assert(n != "transition-property"@) by { assert(n.len() != "transition-property"@.len()); }
    assert(n != "transition-timing-function"@) by { assert(n.len() != "transition-timing-function"@.len()); }
    assert(typed_handles(n));
    if value == "wrap"@ {
        assert(value != "wrap-reverse"@) by { assert(value.len() != "wrap-reverse"@.len()); }
        assert(value != "nowrap"@) by { assert(value.len() != "nowrap"@.len()); }
        assert(class == "flex-wrap"@);
    } else if value == "wrap-reverse"@ {
        assert(value != "wrap"@) by { assert(value.len() != "wrap"@.len()); }
        assert(value != "nowrap"@) by { assert(value.len() != "nowrap"@.len()); }
        assert(class == "flex-wrap-reverse"@);
    } else {
        assert(value == "nowrap"@);
        assert(value != "wrap"@) by { assert(value.len() != "wrap"@.len()); }
        assert(value != "wrap-reverse"@) by { assert(value.len() != "wrap-reverse"@.len()); }
        assert(class == "flex-nowrap"@);
    }
    assert(flex_wrap_class(value) == class);
    assert(typed_spec(p, rem) == Some(class));
}

proof fn lemma_keyword_justify_content(p: CssProperty, value: Seq<char>, class: Seq<char>, rem: Decimal)
    requires
        p.parsed,
        p.name@ == "justify-content"@,
        p.value matches Some(d) && d@ == value,
        keyword_class("justify-content"@, value, class),
    ensures
        class_spec(p, rem) == Some(class),
{
    reveal_strlit("align-items");
    reveal_strlit("align-self");
    reveal_strlit("around");
    reveal_strlit("between");
    reveal_strlit("center");
    reveal_strlit("end");
    reveal_strlit("evenly");
    reveal_strlit("flex-direction");
    reveal_strlit("flex-end");
    reveal_strlit("flex-start");
    reveal_strlit("flex-wrap");
    reveal_strlit("justify-around");
    reveal_strlit("justify-between");
    reveal_strlit("justify-center");
    reveal_strlit("justify-content");
    reveal_strlit("justify-end");
    reveal_strlit("justify-evenly");
    reveal_strlit("justify-start");
    reveal_strlit("position");
    reveal_strlit("space-around");
    reveal_strlit("space-between");
    reveal_strlit("space-evenly");
    reveal_strlit("start");
    reveal_strlit("transition-property");
    reveal_strlit("transition-timing-function");
    let n = p.name@;
    assert(n != "align-items"@) by { assert(n.len() != "align-items"@.len()); }
    assert(n != "align-self"@) by { assert(n.len() != "align-self"@.len()); }
    assert(n != "flex-direction"@) by { assert(n.len() != "flex-direction"@.len()); }
    assert(n != "flex-wrap"@) by { assert(n.len() != "flex-wrap"@.len()); }
    assert(n != "position"@) by { assert(n.len() != "position"@.len()); }
    assert(n != "transition-property"@) by { assert(n.len() != "transition-property"@.len()); }
    assert(n != "transition-timing-function"@) by { assert(n.len() != "transition-timing-function"@.len()); }
    assert(typed_handles(n));
    if value == "flex-start"@ {
        assert(value != "start"@) by { assert(value.len() != "start"@.len()); }
        assert(value != "flex-end"@) by { assert(value.len() != "flex-end"@.len()); }
        assert(value != "end"@) by { assert(value.len() != "end"@.len()); }
        assert(value != "center"@) by { assert(value.len() != "center"@.len()); }
        assert(value != "space-between"@) by { assert(value.len() != "space-between"@.len()); }
        assert(value != "between"@) by { assert(value.len() != "between"@.len()); }
        assert(value != "space-around"@) by { assert(value.len() != "space-around"@.len()); }
        assert(value != "around"@) by { assert(value.len() != "around"@.len()); }
        assert(value != "space-evenly"@) by { assert(value.len() != "space-evenly"@.len()); }
        assert(value != "evenly"@) by { assert(value.len() != "evenly"@.len()); }
        assert(class == "justify-start"@);
    } else if value == "start"@ {
        assert(value != "flex-start"@) by { assert(value.len() != "flex-start"@.len()); }
        assert(value != "flex-end"@) by { assert(value.len() != "flex-end"@.len()); }
        assert(value != "end"@) by { assert(value.len() != "end"@.len()); }
        assert(value != "center"@) by { assert(value.len() != "center"@.len()); }
        assert(value != "space-between"@) by { assert(value.len() != "space-between"@.len()); }
        assert(value != "between"@) by { assert(value.len() != "between"@.len()); }
        assert(value != "space-around"@) by { assert(value.len() != "space-around"@.len()); }
        assert(value != "around"@) by { assert(value.len() != "around"@.len()); }
        assert(value != "space-evenly"@) by { assert(value.len() != "space-evenly"@.len()); }
        assert(value != "evenly"@) by { assert(value.len() != "evenly"@.len()); }
        assert(class == "justify-start"@);
    } else if value == "flex-end"@ {
        assert(value != "flex-start"@) by { assert(value.len() != "flex-start"@.len()); }
        assert(value != "start"@) by { assert(value.len() != "start"@.len()); }
        assert(value != "end"@) by { assert(value.len() != "end"@.len()); }
        assert(value != "center"@) by { assert(value.len() != "center"@.len()); }
        assert(value != "space-between"@) by { assert(value.len() != "space-between"@.len()); }
        assert(value != "between"@) by { assert(value.len() != "between"@.len()); }
        assert(value != "space-around"@) by { assert(value.len() != "space-around"@.len()); }
        assert(value != "around"@) by { assert(value.len() != "around"@.len()); }
        assert(value != "space-evenly"@) by { assert(value.len() != "space-evenly"@.len()); }
        assert(value != "evenly"@) by { assert(value.len() != "evenly"@.len()); }
        assert(class == "justify-end"@);
    } else if value == "end"@ {
        assert(value != "flex-start"@) by { assert(value.len() != "flex-start"@.len()); }
        assert(value != "start"@) by { assert(value.len() != "start"@.len()); }
        assert(value != "flex-end"@) by { assert(value.len() != "flex-end"@.len()); }
        assert(value != "center"@) by { assert(value.len() != "center"@.len()); }
        assert(value != "space-between"@) by { assert(value.len() != "space-between"@.len()); }
        assert(value != "between"@) by { assert(value.len() != "between"@.len()); }
        assert(value != "space-around"@) by { assert(value.len() != "space-around"@.len()); }
        assert(value != "around"@) by { assert(value.len() != "around"@.len()); }
        assert(value != "space-evenly"@) by { assert(value.len() != "space-evenly"@.len()); }
        assert(value != "evenly"@) by { assert(value.len() != "evenly"@.len()); }
        assert(class == "justify-end"@);
    } else if value == "center"@ {
        assert(value != "flex-start"@) by { assert(value.len() != "flex-start"@.len()); }
        assert(value != "start"@) by { assert(value.len() != "start"@.len()); }
        assert(value != "flex-end"@) by { assert(value.len() != "flex-end"@.len()); }
        assert(value != "end"@) by { assert(value.len() != "end"@.len()); }
        assert(value != "space-between"@) by { assert(value.len() != "space-between"@.len()); }
        assert(value != "between"@) by { assert(value.len() != "between"@.len()); }
        assert(value != "space-around"@) by { assert(value.len() != "space-around"@.len()); }
        assert(value != "around"@) by { assert(value[0] != "around"@[0]); }
        assert(value != "space-evenly"@) by { assert(value.len() != "space-evenly"@.len()); }
        assert(value != "evenly"@) by { assert(value[0] != "evenly"@[0]); }
        assert(class == "justify-center"@);
    } else if value == "space-between"@ {
        assert(value != "flex-start"@) by { assert(value.len() != "flex-start"@.len()); }
        assert(value != "start"@) by { assert(value.len() != "start"@.len()); }
        assert(value != "flex-end"@) by { assert(value.len() != "flex-end"@.len()); }
        assert(value != "end"@) by { assert(value.len() != "end"@.len()); }
        assert(value != "center"@) by { assert(value.len() != "center"@.len()); }
        assert(value != "between"@) by { assert(value.len() != "between"@.len()); }
        assert(value != "space-around"@) by { assert(value.len() != "space-around"@.len()); }
        assert(value != "around"@) by { assert(value.len() != "around"@.len()); }
        assert(value != "space-evenly"@) by { assert(value.len() != "space-evenly"@.len()); }
        assert(value != "evenly"@) by { assert(value.len() != "evenly"@.len()); }
        assert(class == "justify-between"@);
    } else if value == "between"@ {
        assert(value != "flex-start"@) by { assert(value.len() != "flex-start"@.len()); }
        assert(value != "start"@) by { assert(value.len() != "start"@.len()); }
        assert(value != "flex-end"@) by { assert(value.len() != "flex-end"@.len()); }
        assert(value != "end"@) by { assert(value.len() != "end"@.len()); }
        assert(value != "center"@) by { assert(value.len() != "center"@.len()); }
        assert(value != "space-between"@) by { assert(value.len() != "space-between"@.len()); }
        assert(value != "space-around"@) by { assert(value.len() != "space-around"@.len()); }
        assert(value != "around"@) by { assert(value.len() != "around"@.len()); }
        assert(value != "space-evenly"@) by { assert(value.len() != "space-evenly"@.len()); }
        assert(value != "evenly"@) by { assert(value.len() != "evenly"@.len()); }
        assert(class == "justify-between"@);
    } else if value == "space-around"@ {
        assert(value != "flex-start"@) by { assert(value.len() != "flex-start"@.len()); }
        assert(value != "start"@) by { assert(value.len() != "start"@.len()); }
        assert(value != "flex-end"@) by { assert(value.len() != "flex-end"@.len()); }
        assert(value != "end"@) by { assert(value.len() != "end"@.len()); }
        assert(value != "center"@) by { assert(value.len() != "center"@.len()); }
        assert(value != "space-between"@) by { assert(value.len() != "space-between"@.len()); }
        assert(value != "between"@) by { assert(value.len() != "between"@.len()); }
        assert(value != "around"@) by { assert(value.len() != "around"@.len()); }
        assert(value != "space-evenly"@) by { assert(value[6] != "space-evenly"@[6]); }
        assert(value != "evenly"@) by { assert(value.len() != "evenly"@.len()); }
        assert(class == "justify-around"@);
    } else if value == "around"@ {
        assert(value != "flex-start"@) by { assert(value.len() != "flex-start"@.len()); }
        assert(value != "start"@) by { assert(value.len() != "start"@.len()); }
        assert(value != "flex-end"@) by { assert(value.len() != "flex-end"@.len()); }
        assert(value != "end"@) by { assert(value.len() != "end"@.len()); }
        assert(value != "center"@) by { assert(value[0] != "center"@[0]); }
        assert(value != "space-between"@) by { assert(value.len() != "space-between"@.len()); }
        assert(value != "between"@) by { assert(value.len() != "between"@.len()); }
        assert(value != "space-around"@) by { assert(value.len() != "space-around"@.len()); }
        assert(value != "space-evenly"@) by { assert(value.len() != "space-evenly"@.len()); }
        assert(value != "evenly"@) by { assert(value[0] != "evenly"@[0]); }
        assert(class == "justify-around"@);
    } else if value == "space-evenly"@ {
        assert(value != "flex-start"@) by { assert(value.len() != "flex-start"@.len()); }
        assert(value != "start"@) by { assert(value.len() != "start"@.len()); }
        assert(value != "flex-end"@) by { assert(value.len() != "flex-end"@.len()); }
        assert(value != "end"@) by { assert(value.len() != "end"@.len()); }
        assert(value != "center"@) by { assert(value.len() != "center"@.len()); }
        assert(value != "space-between"@) by { assert(value.len() != "space-between"@.len()); }
        assert(value != "between"@) by { assert(value.len() != "between"@.len()); }
        assert(value != "space-around"@) by { assert(value[6] != "space-around"@[6]); }
        assert(value != "around"@) by { assert(value.len() != "around"@.len()); }
        assert(value != "evenly"@) by { assert(value.len() != "evenly"@.len()); }
        assert(class == "justify-evenly"@);
    } else {
        assert(value == "evenly"@);
        assert(value != "flex-start"@) by { assert(value.len() != "flex-start"@.len()); }
        assert(value != "start"@) by { assert(value.len() != "start"@.len()); }
        assert(value != "flex-end"@) by { assert(value.len() != "flex-end"@.len()); }
        assert(value != "end"@) by { assert(value.len() != "end"@.len()); }
        assert(value != "center"@) by { assert(value[0] != "center"@[0]); }
        assert(value != "space-between"@) by { assert(value.len() != "space-between"@.len()); }
        assert(value != "between"@) by { assert(value.len() != "between"@.len()); }
        assert(value != "space-around"@) by { assert(value.len() != "space-around"@.len()); }
        assert(value != "around"@) by { assert(value[0] != "around"@[0]); }
        assert(value != "space-evenly"@) by { assert(value.len() != "space-evenly"@.len()); }
        assert(class == "justify-evenly"@);
    }
    assert(justify_content_class(value) == class);
    assert(typed_spec(p, rem) == Some(class));
}

proof fn lemma_keyword_align_items(p: CssProperty, value: Seq<char>, class: Seq<char>, rem: Decimal)
    requires
        p.parsed,
        p.name@ == "align-items"@,
        p.value matches Some(d) && d@ == value,
        keyword_class("align-items"@, value, class),
    ensures
        class_spec(p, rem) == Some(class),
{
    reveal_strlit("align-items");
    reveal_strlit("align-self");
    reveal_strlit("baseline");
    reveal_strlit("center");
    reveal_strlit("end");
    reveal_strlit("flex-direction");
    reveal_strlit("flex-end");
    reveal_strlit("flex-start");
    reveal_strlit("flex-wrap");
    reveal_strlit("items-baseline");
    reveal_strlit("items-center");
    reveal_strlit("items-end");
    reveal_strlit("items-start");
    reveal_strlit("items-stretch");
    reveal_strlit("justify-content");
    reveal_strlit("position");
    reveal_strlit("start");
    reveal_strlit("stretch");
    reveal_strlit("transition-property");
    reveal_strlit("transition-timing-function");
    let n = p.name@;
    assert(n != "align-self"@) by { assert(n.len() != "align-self"@.len()); }
    assert(n != "flex-direction"@) by { assert(n.len() != "flex-direction"@.len()); }
    assert(n != "flex-wrap"@) by { assert(n.len() != "flex-wrap"@.len()); }
    assert(n != "justify-content"@) by { assert(n.len() != "justify-content"@.len()); }
    assert(n != "position"@) by { assert(n.len() != "position"@.len()); }
    assert(n != "transition-property"@) by { assert(n.len() != "transition-property"@.len()); }
    assert(n != "transition-timing-function"@) by { assert(n.len() != "transition-timing-function"@.len()); }
    assert(typed_handles(n));
    if value == "flex-start"@ {
        assert(value != "start"@) by { assert(value.len() != "start"@.len()); }
        assert(value != "flex-end"@) by { assert(value.len() != "flex-end"@.len()); }
        assert(value != "end"@) by { assert(value.len() != "end"@.len()); }
        assert(value != "center"@) by { assert(value.len() != "center"@.len()); }
        assert(value != "baseline"@) by { assert(value.len() != "baseline"@.len()); }
        assert(value != "stretch"@) by { assert(value.len() != "stretch"@.len()); }
        assert(class == "items-start"@);
    } else if value == "start"@ {
        assert(value != "flex-start"@) by { assert(value.len() != "flex-start"@.len()); }
        assert(value != "flex-end"@) by { assert(value.len() != "flex-end"@.len()); }
        assert(value != "end"@) by { assert(value.len() != "end"@.len()); }
        assert(value != "center"@) by { assert(value.len() != "center"@.len()); }
        assert(value != "baseline"@) by { assert(value.len() != "baseline"@.len()); }
        assert(value != "stretch"@) by { assert(value.len() != "stretch"@.len()); }
        assert(class == "items-start"@);
    } else if value == "flex-end"@ {
        assert(value != "flex-start"@) by { assert(value.len() != "flex-start"@.len()); }
        assert(value != "start"@) by { assert(value.len() != "start"@.len()); }
        assert(value != "end"@) by { assert(value.len() != "end"@.len()); }
        assert(value != "center"@) by { assert(value.len() != "center"@.len()); }
        assert(value != "baseline"@) by { assert(value[0] != "baseline"@[0]); }
        assert(value != "stretch"@) by { assert(value.len() != "stretch"@.len()); }
        assert(class == "items-end"@);
    } else if value == "end"@ {
        assert(value != "flex-start"@) by { assert(value.len() != "flex-start"@.len()); }
        assert(value != "start"@) by { assert(value.len() != "start"@.len()); }
        assert(value != "flex-end"@) by { assert(value.len() != "flex-end"@.len()); }
        assert(value != "center"@) by { assert(value.len() != "center"@.len()); }
        assert(value != "baseline"@) by { assert(value.len() != "baseline"@.len()); }
        assert(value != "stretch"@) by { assert(value.len() != "stretch"@.len()); }
        assert(class == "items-end"@);
    } else if value == "center"@ {
        assert(value != "flex-start"@) by { assert(value.len() != "flex-start"@.len()); }
        assert(value != "start"@) by { assert(value.len() != "start"@.len()); }
        assert(value != "flex-end"@) by { assert(value.len() != "flex-end"@.len()); }
        assert(value != "end"@) by { assert(value.len() != "end"@.len()); }
        assert(value != "baseline"@) by { assert(value.len() != "baseline"@.len()); }
        assert(value != "stretch"@) by { assert(value.len() != "stretch"@.len()); }
        assert(class == "items-center"@);
    } else if value == "baseline"@ {
        assert(value != "flex-start"@) by { assert(value.len() != "flex-start"@.len()); }
        assert(value != "start"@) by { assert(value.len() != "start"@.len()); }
        assert(value != "flex-end"@) by { assert(value[0] != "flex-end"@[0]); }
        assert(value != "end"@) by { assert(value.len() != "end"@.len()); }
        assert(value != "center"@) by { assert(value.len() != "center"@.len()); }
        assert(value != "stretch"@) by { assert(value.len() != "stretch"@.len()); }
        assert(class == "items-baseline"@);
    } else {
        assert(value == "stretch"@);
        assert(value != "flex-start"@) by { assert(value.len() != "flex-start"@.len()); }
        assert(value != "start"@) by { assert(value.len() != "start"@.len()); }
        assert(value != "flex-end"@) by { assert(value.len() != "flex-end"@.len()); }
        assert(value != "end"@) by { assert(value.len() != "end"@.len()); }
        assert(value != "center"@) by { assert(value.len() != "center"@.len()); }
        assert(value != "baseline"@) by { assert(value.len() != "baseline"@.len()); }
        assert(class == "items-stretch"@);
    }
    assert(align_items_class(value) == class);
    assert(typed_spec(p, rem) == Some(class));
}

proof fn lemma_keyword_align_self(p: CssProperty, value: Seq<char>, class: Seq<char>, rem: Decimal)
    requires
        p.parsed,
        p.name@ == "align-self"@,
        p.value matches Some(d) && d@ == value,
        keyword_class("align-self"@, value, class),
    ensures
        class_spec(p, rem) == Some(class),
{
    reveal_strlit("align-items");
    reveal_strlit("align-self");
    reveal_strlit("auto");
    reveal_strlit("baseline");
    reveal_strlit("center");
    reveal_strlit("end");
    reveal_strlit("flex-direction");
    reveal_strlit("flex-end");
    reveal_strlit("flex-start");
    reveal_strlit("flex-wrap");
    reveal_strlit("justify-content");
    reveal_strlit("position");
    reveal_strlit("self-auto");
    reveal_strlit("self-baseline");
    reveal_strlit("self-center");
    reveal_strlit("self-end");
    reveal_strlit("self-start");
    reveal_strlit("self-stretch");
    reveal_strlit("start");
    reveal_strlit("stretch");
    reveal_strlit("transition-property");
    reveal_strlit("transition-timing-function");
    let n = p.name@;
    assert(n != "align-items"@) by { assert(n.len() != "align-items"@.len()); }
    assert(n != "flex-direction"@) by { assert(n.len() != "flex-direction"@.len()); }
    assert(n != "flex-wrap"@) by { assert(n.len() != "flex-wrap"@.len()); }
    assert(n != "justify-content"@) by { assert(n.len() != "justify-content"@.len()); }
    assert(n != "position"@) by { assert(n.len() != "position"@.len()); }
    assert(n != "transition-property"@) by { assert(n.len() != "transition-property"@.len()); }
    assert(n != "transition-timing-function"@) by { assert(n.len() != "transition-timing-function"@.len()); }
    assert(typed_handles(n));
    if value == "auto"@ {
        assert(value != "flex-start"@) by { assert(value.len() != "flex-start"@.len()); }
        assert(value != "start"@) by { assert(value.len() != "start"@.len()); }
        assert(value != "flex-end"@) by { assert(value.len() != "flex-end"@.len()); }
        assert(value != "end"@) by { assert(value.len() != "end"@.len()); }
        assert(value != "center"@) by { assert(value.len() != "center"@.len()); }
        assert(value != "baseline"@) by { assert(value.len() != "baseline"@.len()); }
        assert(value != "stretch"@) by { assert(value.len() != "stretch"@.len()); }
        assert(class == "self-auto"@);
    } else if value == "flex-start"@ {
        assert(value != "auto"@) by { assert(value.len() != "auto"@.len()); }
        assert(value != "start"@) by { assert(value.len() != "start"@.len()); }
        assert(value != "flex-end"@) by { assert(value.len() != "flex-end"@.len()); }
        assert(value != "end"@) by { assert(value.len() != "end"@.len()); }
        assert(value != "center"@) by { assert(value.len() != "center"@.len()); }
        assert(value != "baseline"@) by { assert(value.len() != "baseline"@.len()); }
        assert(value != "stretch"@) by { assert(value.len() != "stretch"@.len()); }
        assert(class == "self-start"@);
    } else if value == "start"@ {
        assert(value != "auto"@) by { assert(value.len() != "auto"@.len()); }
        assert(value != "flex-start"@) by { assert(value.len() != "flex-start"@.len()); }
        assert(value != "flex-end"@) by { assert(value.len() != "flex-end"@.len()); }
        assert(value != "end"@) by { assert(value.len() != "end"@.len()); }
        assert(value != "center"@) by { assert(value.len() != "center"@.len()); }
        assert(value != "baseline"@) by { assert(value.len() != "baseline"@.len()); }
        assert(value != "stretch"@) by { assert(value.len() != "stretch"@.len()); }
        assert(class == "self-start"@);
    } else if value == "flex-end"@ {
        assert(value != "auto"@) by { assert(value.len() != "auto"@.len()); }
        assert(value != "flex-start"@) by { assert(value.len() != "flex-start"@.len()); }
        assert(value != "start"@) by { assert(value.len() != "start"@.len()); }
        assert(value != "end"@) by { assert(value.len() != "end"@.len()); }
        assert(value != "center"@) by { assert(value.len() != "center"@.len()); }
        assert(value != "baseline"@) by { assert(value[0] != "baseline"@[0]); }
        assert(value != "stretch"@) by { assert(value.len() != "stretch"@.len()); }
        assert(class == "self-end"@);
    } else if value == "end"@ {
        assert(value != "auto"@) by { assert(value.len() != "auto"@.len()); }
        assert(value != "flex-start"@) by { assert(value.len() != "flex-start"@.len()); }
        assert(value != "start"@) by { assert(value.len() != "start"@.len()); }
        assert(value != "flex-end"@) by { assert(value.len() != "flex-end"@.len()); }
        assert(value != "center"@) by { assert(value.len() != "center"@.len()); }
        assert(value != "baseline"@) by { assert(value.len() != "baseline"@.len()); }
        assert(value != "stretch"@) by { assert(value.len() != "stretch"@.len()); }
        assert(class == "self-end"@);
    } else if value == "center"@ {
        assert(value != "auto"@) by { assert(value.len() != "auto"@.len()); }
        assert(value != "flex-start"@) by { assert(value.len() != "flex-start"@.len()); }
        assert(value != "start"@) by { assert(value.len() != "start"@.len()); }
        assert(value != "flex-end"@) by { assert(value.len() != "flex-end"@.len()); }
        assert(value != "end"@) by { assert(value.len() != "end"@.len()); }
        assert(value != "baseline"@) by { assert(value.len() != "baseline"@.len()); }
        assert(value != "stretch"@) by { assert(value.len() != "stretch"@.len()); }
        assert(class == "self-center"@);
    } else if value == "baseline"@ {
        assert(value != "auto"@) by { assert(value.len() != "auto"@.len()); }
        assert(value != "flex-start"@) by { assert(value.len() != "flex-start"@.len()); }
        assert(value != "start"@) by { assert(value.len() != "start"@.len()); }
        assert(value != "flex-end"@) by { assert(value[0] != "flex-end"@[0]); }
        assert(value != "end"@) by { assert(value.len() != "end"@.len()); }
        assert(value != "center"@) by { assert(value.len() != "center"@.len()); }
        assert(value != "stretch"@) by { assert(value.len() != "stretch"@.len()); }
        assert(class == "self-baseline"@);
    } else {
        assert(value == "stretch"@);
        assert(value != "auto"@) by { assert(value.len() != "auto"@.len()); }
        assert(value != "flex-start"@) by { assert(value.len() != "flex-start"@.len()); }
        assert(value != "start"@) by { assert(value.len() != "start"@.len()); }
        assert(value != "flex-end"@) by { assert(value.len() != "flex-end"@.len()); }
        assert(value != "end"@) by { assert(value.len() != "end"@.len()); }
        assert(value != "center"@) by { assert(value.len() != "center"@.len()); }
        assert(value != "baseline"@) by { assert(value.len() != "baseline"@.len()); }
        assert(class == "self-stretch"@);
    }
    assert(align_self_class(value) == class);
    assert(typed_spec(p, rem) == Some(class));
}

proof fn lemma_keyword_transition_property(p: CssProperty, value: Seq<char>, class: Seq<char>, rem: Decimal)
    requires
        p.parsed,
        p.name@ == "transition-property"@,
        p.value matches Some(d) && d@ == value,
        keyword_class("transition-property"@, value, class),
    ensures
        class_spec(p, rem) == Some(class),
{
    reveal_strlit("align-items");
    reveal_strlit("align-self");
    reveal_strlit("all");
    reveal_strlit("box-shadow");
    reveal_strlit("flex-direction");
    reveal_strlit("flex-wrap");
    reveal_strlit("justify-content");
    reveal_strlit("none");
    reveal_strlit("opacity");
    reveal_strlit("position");
    reveal_strlit("transform");
    reveal_strlit("transition-all");
    reveal_strlit("transition-none");
    reveal_strlit("transition-opacity");
    reveal_strlit("transition-property");
    reveal_strlit("transition-shadow");
    reveal_strlit("transition-timing-function");
    reveal_strlit("transition-transform");
    let n = p.name@;
    assert(n != "align-items"@) by { assert(n.len() != "align-items"@.len()); }
    assert(n != "align-self"@) by { assert(n.len() != "align-self"@.len()); }
    assert(n != "flex-direction"@) by { assert(n.len() != "flex-direction"@.len()); }
    assert(n != "flex-wrap"@) by { assert(n.len() != "flex-wrap"@.len()); }
    assert(n != "justify-content"@) by { assert(n.len() != "justify-content"@.len()); }
    assert(n != "position"@) by { assert(n.len() != "position"@.len()); }
    assert(n != "transition-timing-function"@) by { assert(n.len() != "transition-timing-function"@.len()); }
    assert(typed_handles(n));
    if value == "all"@ {
        assert(value != "none"@) by { assert(value.len() != "none"@.len()); }
        assert(value != "opacity"@) by { assert(value.len() != "opacity"@.len()); }
        assert(value != "transform"@) by { assert(value.len() != "transform"@.len()); }
        assert(value != "box-shadow"@) by { assert(value.len() != "box-shadow"@.len()); }
        assert(class == "transition-all"@);
    } else if value == "none"@ {
        assert(value != "all"@) by { assert(value.len() != "all"@.len()); }
        assert(value != "opacity"@) by { assert(value.len() != "opacity"@.len()); }
        assert(value != "transform"@) by { assert(value.len() != "transform"@.len()); }
        assert(value != "box-shadow"@) by { assert(value.len() != "box-shadow"@.len()); }
        assert(class == "transition-none"@);
    } else if value == "opacity"@ {
        assert(value != "all"@) by { assert(value.len() != "all"@.len()); }
        assert(value != "none"@) by { assert(value.len() != "none"@.len()); }
        assert(value != "transform"@) by { assert(value.len() != "transform"@.len()); }
        assert(value != "box-shadow"@) by { assert(value.len() != "box-shadow"@.len()); }
        assert(class == "transition-opacity"@);
    } else if value == "transform"@ {
        assert(value != "all"@) by { assert(value.len() != "all"@.len()); }
        assert(value != "none"@) by { assert(value.len() != "none"@.len()); }
        assert(value != "opacity"@) by { assert(value.len() != "opacity"@.len()); }
        assert(value != "box-shadow"@) by { assert(value.len() != "box-shadow"@.len()); }
        assert(class == "transition-transform"@);
    } else {
        assert(value == "box-shadow"@);
        assert(value != "all"@) by { assert(value.len() != "all"@.len()); }
        assert(value != "none"@) by { assert(value.len() != "none"@.len()); }
        assert(value != "opacity"@) by { assert(value.len() != "opacity"@.len()); }
        assert(value != "transform"@) by { assert(value.len() != "transform"@.len()); }
        assert(class == "transition-shadow"@);
    }
    assert(transition_property_class(value) == class);
    assert(typed_spec(p, rem) == Some(class));
}

proof fn lemma_keyword_transition_timing_function(p: CssProperty, value: Seq<char>, class: Seq<char>, rem: Decimal)
    requires
        p.parsed,
        p.name@ == "transition-timing-function"@,
        p.value matches Some(d) && d@ == value,
        keyword_class("transition-timing-function"@, value, class),
    ensures
        class_spec(p, rem) == Some(class),
{
    reveal_strlit("align-items");
    reveal_strlit("align-self");
    reveal_strlit("ease-in");
    reveal_strlit("ease-in-out");
    reveal_strlit("ease-linear");
    reveal_strlit("ease-out");
    reveal_strlit("flex-direction");
    reveal_strlit("flex-wrap");
    reveal_strlit("justify-content");
    reveal_strlit("linear");
    reveal_strlit("position");
    reveal_strlit("transition-property");
    reveal_strlit("transition-timing-function");
    let n = p.name@;
    assert(n != "align-items"@) by { assert(n.len() != "align-items"@.len()); }
    assert(n != "align-self"@) by { assert(n.len() != "align-self"@.len()); }
    assert(n != "flex-direction"@) by { assert(n.len() != "flex-direction"@.len()); }
    assert(n != "flex-wrap"@) by { assert(n.len() != "flex-wrap"@.len()); }
    assert(n != "justify-content"@) by { assert(n.len() != "justify-content"@.len()); }
    assert(n != "position"@) by { assert(n.len() != "position"@.len()); }
    assert(n != "transition-property"@) by { assert(n.len() != "transition-property"@.len()); }
    assert(typed_handles(n));
    if value == "linear"@ {
        assert(value != "ease-in"@) by { assert(value.len() != "ease-in"@.len()); }
        assert(value != "ease-out"@) by { assert(value.len() != "ease-out"@.len()); }
        assert(value != "ease-in-out"@) by { assert(value.len() != "ease-in-out"@.len()); }
        assert(class == "ease-linear"@);
    } else if value == "ease-in"@ {
        assert(value != "linear"@) by { assert(value.len() != "linear"@.len()); }
        assert(value != "ease-out"@) by { assert(value.len() != "ease-out"@.len()); }
        assert(value != "ease-in-out"@) by { assert(value.len() != "ease-in-out"@.len()); }
        assert(class == "ease-in"@);
    } else if value == "ease-out"@ {
        assert(value != "linear"@) by { assert(value.len() != "linear"@.len()); }
        assert(value != "ease-in"@) by { assert(value.len() != "ease-in"@.len()); }
        assert(value != "ease-in-out"@) by { assert(value.len() != "ease-in-out"@.len()); }
        assert(class == "ease-out"@);
    } else {
        assert(value == "ease-in-out"@);
        assert(value != "linear"@) by { assert(value.len() != "linear"@.len()); }
        assert(value != "ease-in"@) by { assert(value.len() != "ease-in"@.len()); }
        assert(value != "ease-out"@) by { assert(value.len() != "ease-out"@.len()); }
        assert(class == "ease-in-out"@);
    }
    assert(transition_timing_function_class(value) == class);
    assert(typed_spec(p, rem) == Some(class));
}

proof fn lemma_keyword_position(p: CssProperty, value: Seq<char>, class: Seq<char>, rem: Decimal)
    requires
        p.parsed,
        p.name@ == "position"@,
        p.value matches Some(d) && d@ == value,
        keyword_class("position"@, value, class),
    ensures
        class_spec(p, rem) == Some(class),
{
    reveal_strlit("absolute");
    reveal_strlit("align-items");
    reveal_strlit("align-self");
    reveal_strlit("animation-name");
    reveal_strlit("border-bottom");
    reveal_strlit("border-left");
    reveal_strlit("border-right");
    reveal_strlit("border-top");
    reveal_strlit("fixed");
    reveal_strlit("flex-direction");
    reveal_strlit("flex-wrap");
    reveal_strlit("justify-content");
    reveal_strlit("position");
    reveal_strlit("relative");
    reveal_strlit("static");
    reveal_strlit("sticky");
    reveal_strlit("transition-property");
    reveal_strlit("transition-timing-function");
    let n = p.name@;
    assert(n != "align-items"@) by { assert(n.len() != "align-items"@.len()); }
    assert(n != "align-self"@) by { assert(n.len() != "align-self"@.len()); }
    assert(n != "animation-name"@) by { assert(n.len() != "animation-name"@.len()); }
    assert(n != "border-bottom"@) by { assert(n.len() != "border-bottom"@.len()); }
    assert(n != "border-left"@) by { assert(n.len() != "border-left"@.len()); }
    assert(n != "border-right"@) by { assert(n.len() != "border-right"@.len()); }
    assert(n != "border-top"@) by { assert(n.len() != "border-top"@.len()); }
    assert(n != "flex-direction"@) by { assert(n.len() != "flex-direction"@.len()); }
    assert(n != "flex-wrap"@) by { assert(n.len() != "flex-wrap"@.len()); }
    assert(n != "justify-content"@) by { assert(n.len() != "justify-content"@.len()); }
    assert(n != "transition-property"@) by { assert(n.len() != "transition-property"@.len()); }
    assert(n != "transition-timing-function"@) by { assert(n.len() != "transition-timing-function"@.len()); }
    assert(typed_handles(n));
    if value == "static"@ {
        assert(value != "relative"@) by { assert(value.len() != "relative"@.len()); }
        assert(value != "absolute"@) by { assert(value.len() != "absolute"@.len()); }
        assert(value != "fixed"@) by { assert(value.len() != "fixed"@.len()); }
        assert(value != "sticky"@) by { assert(value[2] != "sticky"@[2]); }
        assert(class == "static"@);
    } else if value == "relative"@ {
        assert(value != "static"@) by { assert(value.len() != "static"@.len()); }
        assert(value != "absolute"@) by { assert(value[0] != "absolute"@[0]); }
        assert(value != "fixed"@) by { assert(value.len() != "fixed"@.len()); }
        assert(value != "sticky"@) by { assert(value.len() != "sticky"@.len()); }
        assert(class == "relative"@);
    } else if value == "absolute"@ {
        assert(value != "static"@) by { assert(value.len() != "static"@.len()); }
        assert(value != "relative"@) by { assert(value[0] != "relative"@[0]); }
        assert(value != "fixed"@) by { assert(value.len() != "fixed"@.len()); }
        assert(value != "sticky"@) by { assert(value.len() != "sticky"@.len()); }
        assert(class == "absolute"@);
    } else if value == "fixed"@ {
        assert(value != "static"@) by { assert(value.len() != "static"@.len()); }
        assert(value != "relative"@) by { assert(value.len() != "relative"@.len()); }
        assert(value != "absolute"@) by { assert(value.len() != "absolute"@.len()); }
        assert(value != "sticky"@) by { assert(value.len() != "sticky"@.len()); }
        assert(class == "fixed"@);
    } else {
        assert(value == "sticky"@);
        assert(value != "static"@) by { assert(value[2] != "static"@[2]); }
        assert(value != "relative"@) by { assert(value.len() != "relative"@.len()); }
        assert(value != "absolute"@) by { assert(value.len() != "absolute"@.len()); }
        assert(value != "fixed"@) by { assert(value.len() != "fixed"@.len()); }
        assert(class == "sticky"@);
    }
    assert(position_class(value) == class);
    assert(typed_spec(p, rem) == Some(class));
}

/// A parsed declaration of `flex-wrap`, `justify-content`, `align-items`,
/// `align-self`, `transition-property`, `transition-timing-function` or
/// `position` with a keyword value and without `var()` references maps to
/// Tailwind's class for that keyword (`justify-content: center` to
/// `justify-center`, `position: absolute` to `absolute`, ...), after the
/// variants' prefixes and before `!` for an important one.
pub proof fn law_keyword_classes(
    p: CssProperty,
    value: Seq<char>,
    class: Seq<char>,
    important: bool,
    prefix: Seq<char>,
    rem: Decimal,
    vars: VariableMap,
)
    requires
        p.parsed,
        p.value matches Some(d) && d@ == value,
        !starts_with(p.css@, "--"@),
        next_var(p.css@, 0) is None,
        keyword_class(p.name@, value, class),
    ensures
        map_spec(p, important, prefix, rem, vars) == Some(prefix + class + bang(important)),
{
    law_no_reference_unchanged(p.css@, vars);
    if p.name@ == "flex-wrap"@ {
        lemma_keyword_flex_wrap(p, value, class, rem);
    } else if p.name@ == "justify-content"@ {
        lemma_keyword_justify_content(p, value, class, rem);
    } else if p.name@ == "align-items"@ {
        lemma_keyword_align_items(p, value, class, rem);
    } else if p.name@ == "align-self"@ {
        lemma_keyword_align_self(p, value, class, rem);
    } else if p.name@ == "transition-property"@ {
        lemma_keyword_transition_property(p, value, class, rem);
    } else if p.name@ == "transition-timing-function"@ {
        lemma_keyword_transition_timing_function(p, value, class, rem);
    } else {
        lemma_keyword_position(p, value, class, rem);
    }
}


} // verus!
