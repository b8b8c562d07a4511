//! A flat function-expression grammar, `name(arg,...)`: enough tree shape
//! for a leaf descriptor, whose arguments are terminal strings. A bare
//! `name` with no parentheses is a tree with no arguments; arguments may
//! not themselves hold parentheses.

use vstd::prelude::*;
use vstd::string::StrSliceExecFns;

use crate::checksum::{find_char, find_in, lemma_find_in_some};
use crate::error::{Error, ErrorV};

verus! {

/// One parsed expression: its name and its argument texts, in order.
pub struct Tree {
    pub name: String,
    pub args: Vec<String>,
}

/// The ghost image of a [`Tree`].
#[verifier::ext_equal]
pub struct TreeV {
    pub name: Seq<char>,
    pub args: Seq<Seq<char>>,
}

impl View for Tree {
    type V = TreeV;

    open spec fn view(&self) -> TreeV {
        TreeV { name: self.name@, args: self.args.deep_view() }
    }
}

/// Split `s` at every comma.
pub open spec fn split_args(s: Seq<char>) -> Seq<Seq<char>>
    decreases s.len(),
{
    match find_in(s, ',') {
        None => seq![s],
        Some(i) => if 0 <= i < s.len() {
            seq![s.take(i)] + split_args(s.skip(i + 1))
        } else {
            seq![s]
        },
    }
}

/// What expression parsing yields on `s`: the name before the first `(`,
/// and the comma-separated arguments inside the parentheses; `None` when
/// `s` is not of that shape.
pub open spec fn tree_parse(s: Seq<char>) -> Option<TreeV> {
    match find_in(s, '(') {
        None => if find_in(s, ')') is None && find_in(s, ',') is None {
            Some(TreeV { name: s, args: Seq::empty() })
        } else {
            None
        },
        Some(i) => {
            let name = s.take(i);
            if s.len() >= i + 2 && s.last() == ')' {
                let inner = s.subrange(i + 1, s.len() - 1);
                if find_in(inner, '(') is None && find_in(inner, ')') is None && find_in(name, ')')
                    is None && find_in(name, ',') is None {
                    if inner.len() == 0 {
                        Some(TreeV { name, args: Seq::empty() })
                    } else {
                        Some(TreeV { name, args: split_args(inner) })
                    }
                } else {
                    None
                }
            } else {
                None
            }
        },
    }
}

impl Tree {
    /// Parse `s` as a flat `name(arg,...)` expression.
    pub fn from_str(s: &str) -> (r: Result<Tree, Error>)
        ensures
            r matches Ok(t) ==> tree_parse(s@) == Some(t@),
            r matches Err(e) ==> tree_parse(s@) is None && e@ == ErrorV::InvalidExpression,
    {
        let n = s.unicode_len();
        match find_char(s, '(') {
            None => {
                if find_char(s, ')').is_none() && find_char(s, ',').is_none() {
                    let t = Tree { name: s.to_owned(), args: Vec::new() };
                    proof {
                        assert(t@.args =~= Seq::<Seq<char>>::empty());
                        assert(t@ =~~= TreeV { name: s@, args: Seq::empty() });
                    }
                    Ok(t)
                } else {
                    Err(Error::InvalidExpression)
                }
            },
            Some(i) => {
                proof {
                    lemma_find_in_some(s@, '(');
                }
                if n - i < 2 || s.get_char(n - 1) != ')' {
                    return Err(Error::InvalidExpression);
                }
                let name = s.substring_char(0, i);
                if find_char(name, ')').is_some() || find_char(name, ',').is_some() {
                    return Err(Error::InvalidExpression);
                }
                let inner = s.substring_char(i + 1, n - 1);
                if find_char(inner, '(').is_some() || find_char(inner, ')').is_some() {
                    return Err(Error::InvalidExpression);
                }
                proof {
                    assert(name@ =~= s@.take(i as int));
                    assert(inner@ =~= s@.subrange(i as int + 1, s@.len() - 1));
                }
                let mut args: Vec<String> = Vec::new();
                if inner.unicode_len() == 0 {
                    let t = Tree { name: name.to_owned(), args };
                    proof {
                        assert(t@.args =~= Seq::<Seq<char>>::empty());
                        assert(t@ =~~= (TreeV { name: s@.take(i as int), args: Seq::empty() }));
                    }
                    return Ok(t);
                }
                let ghost inner0: Seq<char> = inner@;
                let mut rest: String = inner.to_owned();
                loop
                    invariant_except_break
                        split_args(inner0) =~~= args.deep_view() + split_args(rest@),
                    ensures
                        split_args(inner0) =~~= args.deep_view(),
                    decreases rest@.len(),
                {
                    let rlen = rest.as_str().unicode_len();
                    let ghost prev_args = args.deep_view();
                    let ghost prev_rest = rest@;
                    match find_char(rest.as_str(), ',') {
                        Some(k) => {
                            proof {
                                lemma_find_in_some(rest@, ',');
                            }
                            let rs = rest.as_str();
                            let piece = rs.substring_char(0, k).to_owned();
                            let tail = rs.substring_char(k + 1, rlen).to_owned();
                            args.push(piece);
                            rest = tail;
                            proof {
                                assert(args.deep_view() =~~= prev_args.push(
                                    prev_rest.take(k as int),
                                ));
                                assert(split_args(prev_rest) == seq![prev_rest.take(k as int)]
                                    + split_args(prev_rest.skip(k as int + 1)));
                                assert(prev_args + split_args(prev_rest) =~~= args.deep_view()
                                    + split_args(rest@));
                            }
                        },
                        None => {
                            let whole = rest.as_str().to_owned();
                            args.push(whole);
                            proof {
                                assert(args.deep_view() =~~= prev_args.push(prev_rest));
                                assert(split_args(prev_rest) == seq![prev_rest]);
                                assert(prev_args + split_args(prev_rest) =~~= args.deep_view());
                            }
                            break;
                        },
                    }
                }
                let t = Tree { name: name.to_owned(), args };
                proof {
                    assert(t@ =~~= (TreeV { name: s@.take(i as int), args: split_args(inner0) }));
                }
                Ok(t)
            },
        }
    }
}

} // verus!
