//! Bracketed, separated lists of expressions, as in the arguments of a call and the items of
//! an array literal.

use vstd::prelude::*;
use vstd::slice::slice_subrange;
use crate::ast::{Expr, ExprView};
use crate::lex::{ShallowTokenKind, Token};
use crate::parse::error::{Error, ErrorKind};
use crate::parse::expr_parsers::{parse_expr, parsed_expr};
use crate::parse::tokens_ext::{
    expected_at,
    get_token_kind,
    has_kind_at,
    locate_last_matched_right,
    matched_right,
};

verus! {

/// Whether what a parser returned is what the grammar says of the tokens.
pub open spec fn agrees<T: View>(returned: Result<T, Error>, stated: Result<T::V, Error>) -> bool {
    match returned {
        Ok(value) => stated == Ok::<T::V, Error>(value@),
        Err(e) => stated == Err::<T::V, Error>(e),
    }
}

/// Whether a dispatcher stops at this result: a success, or a failure that no other
/// production can recover from.
pub open spec fn settles<V>(result: Result<V, Error>) -> bool {
    match result {
        Ok(_) => true,
        Err(e) => !e.is_recoverable,
    }
}

/// A bracketed list of expressions.
#[derive(Debug)]
pub struct FoundExprList {
    pub items: Vec<FoundExprListItem>,
    /// The index of the token after the closing bracket.
    pub next_index: usize,
}

/// An expression of a list and the index of its first token.
#[derive(Debug)]
pub struct FoundExprListItem {
    pub expr: Expr,
    pub found_at: usize,
}

/// A bracketed list of names.
#[derive(Debug)]
pub struct FoundPropIdentList {
    pub prop_idents: Vec<String>,
    /// The index of the token after the closing bracket.
    pub next_index: usize,
}

/// An item of a list as a mathematical value.
pub ghost struct ItemView {
    pub expr: ExprView,
    pub found_at: int,
}

/// A list as a mathematical value.
pub ghost struct ListView {
    pub items: Seq<ItemView>,
    pub next_index: int,
}

impl View for FoundExprListItem {
    type V = ItemView;

    open spec fn view(&self) -> ItemView {
        ItemView { expr: self.expr@, found_at: self.found_at as int }
    }
}

/// The views of the items of a list, in order.
pub open spec fn item_views(items: Seq<FoundExprListItem>) -> Seq<ItemView> {
    items.map_values(|item: FoundExprListItem| item@)
}

impl View for FoundExprList {
    type V = ListView;

    open spec fn view(&self) -> ListView {
        ListView { items: item_views(self.items@), next_index: self.next_index as int }
    }
}

/// A list of names as a mathematical value.
pub ghost struct PropIdentsView {
    pub prop_idents: Seq<Seq<char>>,
    pub next_index: int,
}

impl View for FoundPropIdentList {
    type V = PropIdentsView;

    open spec fn view(&self) -> PropIdentsView {
        PropIdentsView {
            prop_idents: self.prop_idents@.map_values(|name: String| name@),
            next_index: self.next_index as int,
        }
    }
}

/// The expressions of a list, without their places.
pub open spec fn exprs_of(items: Seq<ItemView>) -> Seq<ExprView> {
    items.map_values(|item: ItemView| item.expr)
}

impl FoundExprList {
    /// The expressions of the list, in order.
    pub fn into_exprs(self) -> (exprs: Vec<Expr>)
        ensures
            exprs@.map_values(|e: Expr| e@) == exprs_of(self@.items),
    {
        let mut items = self.items;
        let ghost all = items@;
        let mut reversed: Vec<Expr> = Vec::new();
        while items.len() > 0
            invariant
                items@.len() + reversed@.len() == all.len(),
                items@ == all.subrange(0, items@.len() as int),
                forall|i: int|
                    0 <= i < reversed@.len() ==> reversed@[i] == all[all.len() - 1 - i].expr,
            decreases items@.len(),
        {
            let item = items.pop().unwrap();
            reversed.push(item.expr);
        }
        let mut exprs: Vec<Expr> = Vec::new();
        while reversed.len() > 0
            invariant
                reversed@.len() + exprs@.len() == all.len(),
                forall|i: int|
                    0 <= i < reversed@.len() ==> reversed@[i] == all[all.len() - 1 - i].expr,
                forall|i: int| 0 <= i < exprs@.len() ==> exprs@[i] == all[i].expr,
            decreases reversed@.len(),
        {
            let e = reversed.pop().unwrap();
            exprs.push(e);
        }
        assert(exprs@.map_values(|e: Expr| e@) =~= exprs_of(self@.items));
        exprs
    }
}

/// The items between the brackets: each is the longest run of tokens from `start` that is an
/// expression and is followed by the separator or by the closing bracket at `closing`. The
/// run `start..closing - d` is tried, then shorter ones.
pub open spec fn parsed_list_items(
    tokens: Seq<Token>,
    separator: ShallowTokenKind,
    closing: int,
    start: int,
    d: int,
) -> Result<Seq<ItemView>, Error>
    decreases tokens.len(), 3int, closing + 1 - start, closing - start - d,
    when 1 <= start && 0 <= d && closing < tokens.len()
{
    if start >= closing {
        Ok(Seq::empty())
    } else if start + d >= closing {
        Err(Error { index: start as usize, kind: ErrorKind::NoValidExpr, is_recoverable: true })
    } else if d != 0 && !has_kind_at(tokens, closing - d, separator) {
        parsed_list_items(tokens, separator, closing, start, d + 1)
    } else {
        match parsed_expr(tokens.subrange(start, closing - d)) {
            Ok(expr) => match parsed_list_items(tokens, separator, closing, closing - d + 1, 0) {
                Ok(rest) => Ok(seq![ItemView { expr, found_at: start }] + rest),
                Err(e) => Err(e),
            },
            Err(_) => parsed_list_items(tokens, separator, closing, start, d + 1),
        }
    }
}

/// The list that `tokens` begins with: `open`, expressions with `separator` between them,
/// and the `close` that matches.
pub open spec fn parsed_expr_list(
    tokens: Seq<Token>,
    separator: ShallowTokenKind,
    open: ShallowTokenKind,
    close: ShallowTokenKind,
) -> Result<ListView, Error>
    decreases tokens.len(), 4int,
{
    match matched_right(tokens, open, close) {
        Err(e) => Err(e),
        Ok(closing) => if closing == 1 {
            Ok(ListView { items: Seq::empty(), next_index: 2 })
        } else if 1 < closing < tokens.len() {
            match parsed_list_items(tokens, separator, closing as int, 1, 0) {
                Ok(items) => Ok(ListView { items, next_index: closing + 1 }),
                Err(e) => Err(e),
            }
        } else {
            Err(expected_at(tokens, 0, open))
        },
    }
}

/// Parses a bracketed list of expressions at the start of `tokens`.
pub fn parse_expr_list(
    tokens: &[Token],
    separator: ShallowTokenKind,
    open: ShallowTokenKind,
    close: ShallowTokenKind,
) -> (found: Result<FoundExprList, Error>)
    ensures
        agrees(found, parsed_expr_list(tokens@, separator, open, close)),
        found matches Ok(list) ==> 2 <= list.next_index <= tokens@.len(),
    decreases tokens@.len(), 4int,
{
    let closing_index = match locate_last_matched_right(tokens, open, close) {
        Ok(index) => index,
        Err(e) => {
            return Err(e);
        },
    };
    if closing_index == 1 {
        let found = FoundExprList { items: Vec::new(), next_index: 2 };
        assert(found@.items =~= Seq::<ItemView>::empty());
        return Ok(found);
    }
    let mut current_start: usize = 1;
    let mut items: Vec<FoundExprListItem> = Vec::new();
    let mut d: usize = 0;
    let ghost whole = parsed_list_items(tokens@, separator, closing_index as int, 1, 0);
    assert(item_views(items@) + Seq::<ItemView>::empty() =~= Seq::<ItemView>::empty());
    let total = tokens.len();
    while current_start < closing_index
        invariant
            total == tokens@.len(),
            1 < closing_index < total,
            1 <= current_start,
            current_start < closing_index ==> current_start + d <= closing_index,
            matched_right(tokens@, open, close) == Ok::<usize, Error>(closing_index),
            whole == parsed_list_items(tokens@, separator, closing_index as int, 1, 0),
            match parsed_list_items(
                tokens@,
                separator,
                closing_index as int,
                current_start as int,
                d as int,
            ) {
                Ok(rest) => whole == Ok::<Seq<ItemView>, Error>(item_views(items@) + rest),
                Err(e) => whole == Err::<Seq<ItemView>, Error>(e),
            },
        decreases closing_index + 1 - current_start, closing_index - current_start - d,
    {
        if current_start + d >= closing_index {
            return Err(Error::no_valid_expr(current_start));
        }
        if d != 0 && get_token_kind(tokens, closing_index - d, separator).is_err() {
            d += 1;
            continue ;
        }
        let current = slice_subrange(tokens, current_start, closing_index - d);
        match parse_expr(current) {
            Ok(expr) => {
                let ghost before = item_views(items@);
                let item = FoundExprListItem { expr, found_at: current_start };
                let ghost view = item@;
                items.push(item);
                proof {
                    assert(item_views(items@) =~= before.push(view));
                    let after = parsed_list_items(
                        tokens@,
                        separator,
                        closing_index as int,
                        closing_index - d + 1,
                        0,
                    );
                    if after is Ok {
                        assert(before + (seq![view] + after->Ok_0) =~= before.push(view)
                            + after->Ok_0);
                    }
                }
                current_start = closing_index - d + 1;
                d = 0;
            },
            Err(_) => {
                d += 1;
            },
        }
    }
    let found = FoundExprList { items, next_index: closing_index + 1 };
    assert(item_views(items@) + Seq::<ItemView>::empty() =~= item_views(items@));
    Ok(found)
}

/// The names of a parenthesised list: each item must be a bare identifier. The first item
/// that is not fails the list, with an expected identifier at its place.
pub open spec fn prop_idents_of(tokens: Seq<Token>, items: Seq<ItemView>, from: int) -> Result<
    Seq<Seq<char>>,
    Error,
>
    decreases items.len() - from,
{
    if from < 0 || from >= items.len() {
        Ok(Seq::empty())
    } else {
        match items[from].expr {
            ExprView::Ident(name) => match prop_idents_of(tokens, items, from + 1) {
                Ok(rest) => Ok(seq![name] + rest),
                Err(e) => Err(e),
            },
            _ => Err(expected_at(tokens, items[from].found_at as usize, ShallowTokenKind::Ident)),
        }
    }
}

/// The list of names that `tokens` begins with: `(`, identifiers with commas between them,
/// `)`.
pub open spec fn parsed_prop_ident_list(tokens: Seq<Token>) -> Result<PropIdentsView, Error> {
    match parsed_expr_list(
        tokens,
        ShallowTokenKind::Comma,
        ShallowTokenKind::LeftParen,
        ShallowTokenKind::RightParen,
    ) {
        Err(e) => Err(e),
        Ok(list) => match prop_idents_of(tokens, list.items, 0) {
            Ok(prop_idents) => Ok(PropIdentsView { prop_idents, next_index: list.next_index }),
            Err(e) => Err(e),
        },
    }
}

/// Parses the parameter list of a function: given `(a, b)`, returns `[a, b]`.
pub fn parse_prop_ident_list(tokens: &[Token]) -> (found: Result<FoundPropIdentList, Error>)
    ensures
        agrees(found, parsed_prop_ident_list(tokens@)),
        found matches Ok(list) ==> 2 <= list.next_index <= tokens@.len(),
{
    let list = match parse_expr_list(
        tokens,
        ShallowTokenKind::Comma,
        ShallowTokenKind::LeftParen,
        ShallowTokenKind::RightParen,
    ) {
        Ok(list) => list,
        Err(e) => {
            return Err(e);
        },
    };
    let FoundExprList { items, next_index } = list;
    let ghost views = item_views(items@);
    let mut prop_idents: Vec<String> = Vec::new();
    let mut index: usize = 0;
    while index < items.len()
        invariant
            index <= items@.len(),
            views == item_views(items@),
            parsed_expr_list(
                tokens@,
                ShallowTokenKind::Comma,
                ShallowTokenKind::LeftParen,
                ShallowTokenKind::RightParen,
            ) == Ok::<ListView, Error>(ListView { items: views, next_index: next_index as int }),
            match prop_idents_of(tokens@, views, index as int) {
                Ok(rest) => prop_idents_of(tokens@, views, 0) == Ok::<Seq<Seq<char>>, Error>(
                    prop_idents@.map_values(|name: String| name@) + rest,
                ),
                Err(e) => prop_idents_of(tokens@, views, 0) == Err::<Seq<Seq<char>>, Error>(e),
            },
        decreases items@.len() - index,
    {
        let item = &items[index];
        assert(views[index as int] == item@);
        match &item.expr {
            Expr::Ident(name) => {
                let ghost before = prop_idents@.map_values(|name: String| name@);
                prop_idents.push(name.clone());
                proof {
                    assert(prop_idents@.map_values(|name: String| name@) =~= before.push(name@));
                    let after = prop_idents_of(tokens@, views, index + 1);
                    if after is Ok {
                        assert(before + (seq![name@] + after->Ok_0) =~= before.push(name@)
                            + after->Ok_0);
                    }
                }
            },
            _ => {
                let received = if item.found_at < tokens.len() {
                    Some(tokens[item.found_at].clone())
                } else {
                    None
                };
                return Err(Error::expected_token(item.found_at, ShallowTokenKind::Ident, received));
            },
        }
        index += 1;
    }
    let found = FoundPropIdentList { prop_idents, next_index };
    assert(prop_idents@.map_values(|name: String| name@) + Seq::<Seq<char>>::empty()
        =~= prop_idents@.map_values(|name: String| name@));
    Ok(found)
}

} // verus!
