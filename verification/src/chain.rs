//! The filter-chain interpreter's front end.
//!
//! A token stream (the command line after the input and output paths) is
//! consumed strictly left to right: each step reads a filter name, then the
//! filter's arguments, validates them, and emits one [`FilterOp`]. The first
//! malformed token aborts the whole parse with a [`PipelineError`].

use vstd::prelude::*;
use crate::digits::spec_parse_u32;
use crate::digits::spec_parse_i32;
use crate::digits::parse_u32;
use crate::digits::parse_i32;
use crate::realnum::is_real_token;
use crate::realnum::check_real_token;

verus! {

/// One validated image operation, in the order its tokens appeared.
///
/// The blur amount stays a string: it has been checked to be a real-number
/// token, and the caller that performs the blur turns it into its numeric
/// value.
#[derive(Debug, Clone, PartialEq, Eq)]
pub enum FilterOp {
    Blur(String),
    Brighten(i32),
    Crop(u32, u32, u32, u32),
    Rotate90,
    Rotate180,
    Rotate270,
    Invert,
    Grayscale,
}

/// The mathematical shape of a [`FilterOp`]: strings become char sequences.
pub enum FilterOpView {
    Blur(Seq<char>),
    Brighten(i32),
    Crop(u32, u32, u32, u32),
    Rotate90,
    Rotate180,
    Rotate270,
    Invert,
    Grayscale,
}

impl View for FilterOp {
    type V = FilterOpView;

    open spec fn view(&self) -> FilterOpView {
        match self {
            FilterOp::Blur(t) => FilterOpView::Blur(t@),
            FilterOp::Brighten(v) => FilterOpView::Brighten(*v),
            FilterOp::Crop(x, y, w, h) => FilterOpView::Crop(*x, *y, *w, *h),
            FilterOp::Rotate90 => FilterOpView::Rotate90,
            FilterOp::Rotate180 => FilterOpView::Rotate180,
            FilterOp::Rotate270 => FilterOpView::Rotate270,
            FilterOp::Invert => FilterOpView::Invert,
            FilterOp::Grayscale => FilterOpView::Grayscale,
        }
    }
}

impl DeepView for FilterOp {
    type V = FilterOpView;

    open spec fn deep_view(&self) -> FilterOpView {
        self.view()
    }
}

/// Why a token stream was rejected; the first failure aborts the run.
#[derive(Debug, Clone, PartialEq, Eq)]
pub enum PipelineError {
    /// The token read as a filter name matches no known filter.
    UnknownFilter { name: String },
    /// Fewer tokens follow the filter name than its arity requires.
    MissingArguments { filter: String, required: usize, available: usize },
    /// An argument token does not parse as the filter's expected numeric type.
    InvalidArgument { filter: String, token: String },
    /// The rotation amount parses but is not 90, 180 or 270.
    InvalidRotation { value: u32 },
    /// An image operation cannot be performed on its (validated) arguments:
    /// the imaging library would not return normally for them.
    OperationFailed { filter: String, cause: String },
}

/// The mathematical shape of a [`PipelineError`].
pub enum PipelineErrorView {
    UnknownFilter { name: Seq<char> },
    MissingArguments { filter: Seq<char>, required: int, available: int },
    InvalidArgument { filter: Seq<char>, token: Seq<char> },
    InvalidRotation { value: u32 },
    OperationFailed { filter: Seq<char>, cause: Seq<char> },
}

impl View for PipelineError {
    type V = PipelineErrorView;

    open spec fn view(&self) -> PipelineErrorView {
        match self {
            PipelineError::UnknownFilter { name } => PipelineErrorView::UnknownFilter {
                name: name@,
            },
            PipelineError::MissingArguments { filter, required, available } => {
                PipelineErrorView::MissingArguments {
                    filter: filter@,
                    required: *required as int,
                    available: *available as int,
                }
            },
            PipelineError::InvalidArgument { filter, token } => {
                PipelineErrorView::InvalidArgument { filter: filter@, token: token@ }
            },
            PipelineError::InvalidRotation { value } => PipelineErrorView::InvalidRotation {
                value: *value,
            },
            PipelineError::OperationFailed { filter, cause } => {
                PipelineErrorView::OperationFailed { filter: filter@, cause: cause@ }
            },
        }
    }
}

impl DeepView for PipelineError {
    type V = PipelineErrorView;

    open spec fn deep_view(&self) -> PipelineErrorView {
        self.view()
    }
}

/// What parsing the token stream from position `i` on yields: the operations
/// for the remaining tokens in order, or the first failure.
pub open spec fn spec_parse_from(toks: Seq<Seq<char>>, i: int) -> Result<
    Seq<FilterOpView>,
    PipelineErrorView,
>
    decreases toks.len() - i,
{
    if i < 0 || i >= toks.len() {
        Ok(Seq::empty())
    } else {
        let name = toks[i];
        let available = toks.len() - (i + 1);
        if name == "blur"@ {
            if available < 1 {
                Err(
                    PipelineErrorView::MissingArguments {
                        filter: name,
                        required: 1,
                        available,
                    },
                )
            } else if !is_real_token(toks[i + 1]) {
                Err(PipelineErrorView::InvalidArgument { filter: name, token: toks[i + 1] })
            } else {
                match spec_parse_from(toks, i + 2) {
                    Ok(rest) => Ok(seq![FilterOpView::Blur(toks[i + 1])] + rest),
                    Err(e) => Err(e),
                }
            }
        } else if name == "brighten"@ {
            if available < 1 {
                Err(
                    PipelineErrorView::MissingArguments {
                        filter: name,
                        required: 1,
                        available,
                    },
                )
            } else {
                match spec_parse_i32(toks[i + 1]) {
                    None => Err(
                        PipelineErrorView::InvalidArgument { filter: name, token: toks[i + 1] },
                    ),
                    Some(v) => match spec_parse_from(toks, i + 2) {
                        Ok(rest) => Ok(seq![FilterOpView::Brighten(v)] + rest),
                        Err(e) => Err(e),
                    },
                }
            }
        } else if name == "crop"@ {
            if available < 4 {
                Err(
                    PipelineErrorView::MissingArguments {
                        filter: name,
                        required: 4,
                        available,
                    },
                )
            } else if spec_parse_u32(toks[i + 1]) is None {
                Err(PipelineErrorView::InvalidArgument { filter: name, token: toks[i + 1] })
            } else if spec_parse_u32(toks[i + 2]) is None {
                Err(PipelineErrorView::InvalidArgument { filter: name, token: toks[i + 2] })
            } else if spec_parse_u32(toks[i + 3]) is None {
                Err(PipelineErrorView::InvalidArgument { filter: name, token: toks[i + 3] })
            } else if spec_parse_u32(toks[i + 4]) is None {
                Err(PipelineErrorView::InvalidArgument { filter: name, token: toks[i + 4] })
            } else {
                match spec_parse_from(toks, i + 5) {
                    Ok(rest) => Ok(
                        seq![
                            FilterOpView::Crop(
                                spec_parse_u32(toks[i + 1])->Some_0,
                                spec_parse_u32(toks[i + 2])->Some_0,
                                spec_parse_u32(toks[i + 3])->Some_0,
                                spec_parse_u32(toks[i + 4])->Some_0,
                            ),
                        ] + rest,
                    ),
                    Err(e) => Err(e),
                }
            }
        } else if name == "rotate"@ {
            if available < 1 {
                Err(
                    PipelineErrorView::MissingArguments {
                        filter: name,
                        required: 1,
                        available,
                    },
                )
            } else {
                match spec_parse_u32(toks[i + 1]) {
                    None => Err(
                        PipelineErrorView::InvalidArgument { filter: name, token: toks[i + 1] },
                    ),
                    Some(v) => {
                        if v == 90 || v == 180 || v == 270 {
                            match spec_parse_from(toks, i + 2) {
                                Ok(rest) => Ok(
                                    seq![
                                        if v == 90 {
                                            FilterOpView::Rotate90
                                        } else if v == 180 {
                                            FilterOpView::Rotate180
                                        } else {
                                            FilterOpView::Rotate270
                                        },
                                    ] + rest,
                                ),
                                Err(e) => Err(e),
                            }
                        } else {
                            Err(PipelineErrorView::InvalidRotation { value: v })
                        }
                    },
                }
            }
        } else if name == "invert"@ {
            match spec_parse_from(toks, i + 1) {
                Ok(rest) => Ok(seq![FilterOpView::Invert] + rest),
                Err(e) => Err(e),
            }
        } else if name == "grayscale"@ {
            match spec_parse_from(toks, i + 1) {
                Ok(rest) => Ok(seq![FilterOpView::Grayscale] + rest),
                Err(e) => Err(e),
            }
        } else {
            Err(PipelineErrorView::UnknownFilter { name })
        }
    }
}

/// What parsing a whole token stream yields.
pub open spec fn spec_parse_chain(toks: Seq<Seq<char>>) -> Result<
    Seq<FilterOpView>,
    PipelineErrorView,
> {
    spec_parse_from(toks, 0)
}

/// A parse already under way: `acc` holds the operations of the consumed
/// prefix, `r` what the remaining tokens yield.
pub open spec fn with_prefix(
    acc: Seq<FilterOpView>,
    r: Result<Seq<FilterOpView>, PipelineErrorView>,
) -> Result<Seq<FilterOpView>, PipelineErrorView> {
    match r {
        Ok(rest) => Ok(acc + rest),
        Err(e) => Err(e),
    }
}

/// Whether `tok` holds exactly the word `word`.
fn token_is(tok: &String, word: &str) -> (r: bool)
    ensures
        r == (tok@ == word@),
{
    *tok == word.to_owned()
}

/// Parses the token stream into the operations it denotes, in order, or
/// reports the first failure, exactly as [`spec_parse_chain`] describes.
pub fn parse_chain(tokens: &Vec<String>) -> (r: Result<Vec<FilterOp>, PipelineError>)
    ensures
        ({
            let sr = spec_parse_chain(tokens.deep_view());
            match r {
                Ok(ops) => sr == Ok::<Seq<FilterOpView>, PipelineErrorView>(ops.deep_view()),
                Err(e) => sr == Err::<Seq<FilterOpView>, PipelineErrorView>(e@),
            }
        }),
{
    let ghost toks = tokens.deep_view();
    let n = tokens.len();
    let mut ops: Vec<FilterOp> = Vec::new();
    let mut i: usize = 0;
    while i < n
        invariant
            i <= n,
            n == tokens@.len(),
            toks == tokens.deep_view(),
            spec_parse_chain(toks) == with_prefix(ops.deep_view(), spec_parse_from(toks, i as int)),
        decreases n - i,
    {
        let ghost prev_acc = ops.deep_view();
        let ghost i0 = i as int;
        assert(toks[i0] == tokens@[i0]@);
        let name = &tokens[i];
        let available = n - i - 1;
        if token_is(name, "blur") {
            if available < 1 {
                return Err(
                    PipelineError::MissingArguments {
                        filter: name.clone(),
                        required: 1,
                        available,
                    },
                );
            }
            assert(toks[i0 + 1] == tokens@[i0 + 1]@);
            let amount = &tokens[i + 1];
            if !check_real_token(amount) {
                return Err(
                    PipelineError::InvalidArgument { filter: name.clone(), token: amount.clone() },
                );
            }
            ops.push(FilterOp::Blur(amount.clone()));
            i = i + 2;
            proof {
                lemma_step(toks, prev_acc, i0, i as int, seq![FilterOpView::Blur(toks[i0 + 1])]);
                assert(ops.deep_view() =~= prev_acc + seq![FilterOpView::Blur(toks[i0 + 1])]);
            }
        } else if token_is(name, "brighten") {
            if available < 1 {
                return Err(
                    PipelineError::MissingArguments {
                        filter: name.clone(),
                        required: 1,
                        available,
                    },
                );
            }
            assert(toks[i0 + 1] == tokens@[i0 + 1]@);
            let amount = &tokens[i + 1];
            match parse_i32(amount) {
                None => {
                    return Err(
                        PipelineError::InvalidArgument {
                            filter: name.clone(),
                            token: amount.clone(),
                        },
                    );
                },
                Some(v) => {
                    ops.push(FilterOp::Brighten(v));
                    i = i + 2;
                    proof {
                        lemma_step(toks, prev_acc, i0, i as int, seq![FilterOpView::Brighten(v)]);
                        assert(ops.deep_view() =~= prev_acc + seq![FilterOpView::Brighten(v)]);
                    }
                },
            }
        } else if token_is(name, "crop") {
            if available < 4 {
                return Err(
                    PipelineError::MissingArguments {
                        filter: name.clone(),
                        required: 4,
                        available,
                    },
                );
            }
            assert(toks[i0 + 1] == tokens@[i0 + 1]@ && toks[i0 + 2] == tokens@[i0 + 2]@ && toks[i0
                + 3] == tokens@[i0 + 3]@ && toks[i0 + 4] == tokens@[i0 + 4]@);
            let x = match parse_u32(&tokens[i + 1]) {
                Some(v) => v,
                None => {
                    return Err(
                        PipelineError::InvalidArgument {
                            filter: name.clone(),
                            token: tokens[i + 1].clone(),
                        },
                    );
                },
            };
            let y = match parse_u32(&tokens[i + 2]) {
                Some(v) => v,
                None => {
                    return Err(
                        PipelineError::InvalidArgument {
                            filter: name.clone(),
                            token: tokens[i + 2].clone(),
                        },
                    );
                },
            };
            let w = match parse_u32(&tokens[i + 3]) {
                Some(v) => v,
                None => {
                    return Err(
                        PipelineError::InvalidArgument {
                            filter: name.clone(),
                            token: tokens[i + 3].clone(),
                        },
                    );
                },
            };
            let h = match parse_u32(&tokens[i + 4]) {
                Some(v) => v,
                None => {
                    return Err(
                        PipelineError::InvalidArgument {
                            filter: name.clone(),
                            token: tokens[i + 4].clone(),
                        },
                    );
                },
            };
            ops.push(FilterOp::Crop(x, y, w, h));
            i = i + 5;
            proof {
                lemma_step(toks, prev_acc, i0, i as int, seq![FilterOpView::Crop(x, y, w, h)]);
                assert(ops.deep_view() =~= prev_acc + seq![FilterOpView::Crop(x, y, w, h)]);
            }
        } else if token_is(name, "rotate") {
            if available < 1 {
                return Err(
                    PipelineError::MissingArguments {
                        filter: name.clone(),
                        required: 1,
                        available,
                    },
                );
            }
            assert(toks[i0 + 1] == tokens@[i0 + 1]@);
            let amount = &tokens[i + 1];
            match parse_u32(amount) {
                None => {
                    return Err(
                        PipelineError::InvalidArgument {
                            filter: name.clone(),
                            token: amount.clone(),
                        },
                    );
                },
                Some(v) => {
                    let op = if v == 90 {
                        FilterOp::Rotate90
                    } else if v == 180 {
                        FilterOp::Rotate180
                    } else if v == 270 {
                        FilterOp::Rotate270
                    } else {
                        return Err(PipelineError::InvalidRotation { value: v });
                    };
                    let ghost opv = op@;
                    ops.push(op);
                    i = i + 2;
                    proof {
                        lemma_step(toks, prev_acc, i0, i as int, seq![opv]);
                        assert(ops.deep_view() =~= prev_acc + seq![opv]);
                    }
                },
            }
        } else if token_is(name, "invert") {
            ops.push(FilterOp::Invert);
            i = i + 1;
            proof {
                lemma_step(toks, prev_acc, i0, i as int, seq![FilterOpView::Invert]);
                assert(ops.deep_view() =~= prev_acc + seq![FilterOpView::Invert]);
            }
        } else if token_is(name, "grayscale") {
            ops.push(FilterOp::Grayscale);
            i = i + 1;
            proof {
                lemma_step(toks, prev_acc, i0, i as int, seq![FilterOpView::Grayscale]);
                assert(ops.deep_view() =~= prev_acc + seq![FilterOpView::Grayscale]);
            }
        } else {
            return Err(PipelineError::UnknownFilter { name: name.clone() });
        }
    }
    proof {
        assert(spec_parse_from(toks, i as int) == Ok::<Seq<FilterOpView>, PipelineErrorView>(
            Seq::empty(),
        ));
        assert(ops.deep_view() + Seq::<FilterOpView>::empty() =~= ops.deep_view());
    }
    Ok(ops)
}

/// An empty token stream parses to an empty chain.
pub proof fn lemma_empty_tokens()
    ensures
        spec_parse_chain(Seq::empty()) == Ok::<Seq<FilterOpView>, PipelineErrorView>(Seq::empty()),
{
}

/// A `rotate` whose amount parses but is not one of the three turns fails the
/// whole parse with `InvalidRotation` carrying that amount, wherever in the
/// stream it stands: nothing after it is reached.
pub proof fn lemma_invalid_rotation(toks: Seq<Seq<char>>, i: int, v: u32)
    requires
        0 <= i < toks.len(),
        toks[i] == "rotate"@,
        i + 1 < toks.len(),
        spec_parse_u32(toks[i + 1]) == Some(v),
        v != 90,
        v != 180,
        v != 270,
    ensures
        spec_parse_from(toks, i) == Err::<Seq<FilterOpView>, PipelineErrorView>(
            PipelineErrorView::InvalidRotation { value: v },
        ),
{
    reveal_strlit("blur");
    reveal_strlit("brighten");
    reveal_strlit("crop");
    reveal_strlit("rotate");
    assert("rotate"@.len() == 6 && "blur"@.len() == 4 && "brighten"@.len() == 8 && "crop"@.len()
        == 4);
}

/// One interpreter step: if parsing from `i` emits `ops_step` and continues at
/// `j`, then the whole-prefix accounting moves from `i` to `j`.
proof fn lemma_step(toks: Seq<Seq<char>>, acc: Seq<FilterOpView>, i: int, j: int, ops_step: Seq<FilterOpView>)
    requires
        spec_parse_from(toks, i) == with_prefix(ops_step, spec_parse_from(toks, j)),
    ensures
        with_prefix(acc, spec_parse_from(toks, i)) == with_prefix(
            acc + ops_step,
            spec_parse_from(toks, j),
        ),
{
    let next = spec_parse_from(toks, j);
    if next is Ok {
        let rest = next->Ok_0;
        assert(acc + (ops_step + rest) =~= (acc + ops_step) + rest);
    }
}

} // verus!
