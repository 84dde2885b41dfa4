//! Positional argument binding.
//!
//! A command declares an ordered list of typed fields; the binder consumes the
//! leftover tokens of the message in order. A field is required or optional,
//! and the last field may be a "rest" field that captures all remaining text
//! of the original message verbatim. A failure carries the exact fragment
//! that did not parse, so the dispatcher can underline it in the original
//! text.

use vstd::prelude::*;
use crate::text::{is_int_token, int_token_val, parse_i64, subvec};
use crate::tokenizer::{Token, span_text, spans_of};

verus! {

/// The type a field parses its token into.
#[derive(Clone, Copy, PartialEq, Eq, Structural, Debug)]
pub enum FieldType {
    /// A signed 64-bit integer.
    Int,
    /// One whitespace-delimited word, taken as it stands.
    Str,
}

/// One declared argument field of a command.
pub struct FieldSpec {
    /// Field name, quoted in parse errors.
    pub name: Vec<u8>,
    /// How the token is parsed.
    pub ty: FieldType,
    /// A required field with no token, or whose token does not parse, is an
    /// error; an optional one binds to `Absent` instead.
    pub required: bool,
    /// A rest field captures all remaining text of the message verbatim,
    /// from the start of the next unconsumed token to the end.
    pub rest: bool,
}

/// Ghost image of a field declaration.
pub struct FieldSpecView {
    pub name: Seq<u8>,
    pub ty: FieldType,
    pub required: bool,
    pub rest: bool,
}

impl View for FieldSpec {
    type V = FieldSpecView;

    open spec fn view(&self) -> FieldSpecView {
        FieldSpecView { name: self.name@, ty: self.ty, required: self.required, rest: self.rest }
    }
}

/// Field declarations of a whole command.
pub open spec fn specs_view(specs: Seq<FieldSpec>) -> Seq<FieldSpecView> {
    specs.map_values(|f: FieldSpec| f@)
}

/// A value bound to one field.
#[derive(Debug)]
pub enum ArgValue {
    Int(i64),
    Str(Vec<u8>),
    /// An optional field with nothing to bind.
    Absent,
}

/// Ghost image of a bound value.
pub enum ArgValueView {
    Int(i64),
    Str(Seq<u8>),
    Absent,
}

impl View for ArgValue {
    type V = ArgValueView;

    open spec fn view(&self) -> ArgValueView {
        match self {
            ArgValue::Int(v) => ArgValueView::Int(*v),
            ArgValue::Str(s) => ArgValueView::Str(s@),
            ArgValue::Absent => ArgValueView::Absent,
        }
    }
}

/// Bound values of a whole invocation.
pub open spec fn args_view(args: Seq<ArgValue>) -> Seq<ArgValueView> {
    args.map_values(|a: ArgValue| a@)
}

/// A structured binding failure: the raw fragment that did not parse (empty
/// when a required field had no token at all), the field's name, and a
/// description of the expected type.
#[derive(Debug)]
pub struct ArgumentError {
    pub fragment: Vec<u8>,
    pub field: Vec<u8>,
    pub expected: Vec<u8>,
}

/// Ghost image of a binding failure.
pub struct ArgErrorView {
    pub fragment: Seq<u8>,
    pub field: Seq<u8>,
    pub expected: Seq<u8>,
}

impl View for ArgumentError {
    type V = ArgErrorView;

    open spec fn view(&self) -> ArgErrorView {
        ArgErrorView { fragment: self.fragment@, field: self.field@, expected: self.expected@ }
    }
}

/// Description of a field type, quoted in parse errors: `number` or `string`.
pub open spec fn type_desc(ty: FieldType) -> Seq<u8> {
    match ty {
        FieldType::Int => seq![110u8, 117u8, 109u8, 98u8, 101u8, 114u8],
        FieldType::Str => seq![115u8, 116u8, 114u8, 105u8, 110u8, 103u8],
    }
}

/// Builds the description of a field type as bytes.
pub fn build_type_desc(ty: FieldType) -> (r: Vec<u8>)
    ensures
        r@ == type_desc(ty),
{
    let mut out: Vec<u8> = Vec::new();
    match ty {
        FieldType::Int => {
            out.push(110);
            out.push(117);
            out.push(109);
            out.push(98);
            out.push(101);
            out.push(114);
        },
        FieldType::Str => {
            out.push(115);
            out.push(116);
            out.push(114);
            out.push(105);
            out.push(110);
            out.push(103);
        },
    }
    proof {
        assert(out@ =~= type_desc(ty));
    }
    out
}

/// What binding the fields `specs[j..]` against the tokens `spans[t..]` of
/// `content` yields: the bound values in field order, or the first failure.
///
/// A rest field takes `content` from the start of the next unconsumed token
/// through the end, verbatim. An optional field never consumes a token it
/// cannot parse. Tokens left over after the last field are ignored.
pub open spec fn spec_bind(
    content: Seq<u8>,
    spans: Seq<(int, int)>,
    t: int,
    specs: Seq<FieldSpecView>,
    j: int,
) -> Result<Seq<ArgValueView>, ArgErrorView>
    decreases specs.len() - j when 0 <= j <= specs.len()
{
    if j >= specs.len() {
        Ok(Seq::empty())
    } else {
        let f = specs[j];
        if f.rest {
            if 0 <= t < spans.len() {
                spec_bind_cons(
                    ArgValueView::Str(content.subrange(spans[t].0, content.len() as int)),
                    spec_bind(content, spans, spans.len() as int, specs, j + 1),
                )
            } else if f.required {
                Err(ArgErrorView { fragment: Seq::empty(), field: f.name, expected: type_desc(f.ty) })
            } else {
                spec_bind_cons(
                    ArgValueView::Absent,
                    spec_bind(content, spans, t, specs, j + 1),
                )
            }
        } else if !(0 <= t < spans.len()) {
            if f.required {
                Err(ArgErrorView { fragment: Seq::empty(), field: f.name, expected: type_desc(f.ty) })
            } else {
                spec_bind_cons(ArgValueView::Absent, spec_bind(content, spans, t, specs, j + 1))
            }
        } else {
            let tok = span_text(content, spans[t]);
            match f.ty {
                FieldType::Int => {
                    if is_int_token(tok) {
                        spec_bind_cons(
                            ArgValueView::Int(int_token_val(tok) as i64),
                            spec_bind(content, spans, t + 1, specs, j + 1),
                        )
                    } else if f.required {
                        Err(ArgErrorView { fragment: tok, field: f.name, expected: type_desc(f.ty) })
                    } else {
                        spec_bind_cons(
                            ArgValueView::Absent,
                            spec_bind(content, spans, t, specs, j + 1),
                        )
                    }
                },
                FieldType::Str => {
                    spec_bind_cons(
                        ArgValueView::Str(tok),
                        spec_bind(content, spans, t + 1, specs, j + 1),
                    )
                },
            }
        }
    }
}

/// Puts one bound value in front of the rest, passing a failure through.
pub open spec fn spec_bind_cons(
    v: ArgValueView,
    rest: Result<Seq<ArgValueView>, ArgErrorView>,
) -> Result<Seq<ArgValueView>, ArgErrorView> {
    match rest {
        Ok(vs) => Ok(seq![v] + vs),
        Err(e) => Err(e),
    }
}

/// Binds the declared fields of a command against the leftover tokens
/// `tokens[from..]` of `content`.
pub fn bind_arguments(
    content: &[u8],
    tokens: &Vec<Token>,
    from: usize,
    specs: &Vec<FieldSpec>,
) -> (r: Result<Vec<ArgValue>, ArgumentError>)
    requires
        from <= tokens@.len(),
        forall|k: int| 0 <= k < tokens@.len() ==> (#[trigger] tokens@[k]).start < tokens@[k].end
            <= content@.len(),
    ensures
        match r {
            Ok(vs) => spec_bind(content@, spans_of(tokens@), from as int, specs_view(specs@), 0)
                == Ok::<_, ArgErrorView>(args_view(vs@)),
            Err(e) => spec_bind(content@, spans_of(tokens@), from as int, specs_view(specs@), 0)
                == Err::<Seq<ArgValueView>, _>(e@),
        },
{
    let ghost spans = spans_of(tokens@);
    let ghost sv = specs_view(specs@);
    let nspecs = specs.len();
    let ntok = tokens.len();
    let mut out: Vec<ArgValue> = Vec::new();
    let mut t = from;
    let mut j: usize = 0;
    proof {
        assert(args_view(out@) =~= Seq::<ArgValueView>::empty());
    }
    loop
        invariant
            0 <= j <= nspecs == sv.len() == specs@.len(),
            from <= t <= ntok == spans.len() == tokens@.len(),
            sv == specs_view(specs@),
            spans == spans_of(tokens@),
            forall|k: int| 0 <= k < tokens@.len() ==> (#[trigger] tokens@[k]).start < tokens@[k].end
                <= content@.len(),
            spec_bind(content@, spans, from as int, sv, 0) == (match spec_bind(
                content@,
                spans,
                t as int,
                sv,
                j as int,
            ) {
                Ok(v) => Ok::<_, ArgErrorView>(args_view(out@) + v),
                Err(e) => Err::<Seq<ArgValueView>, _>(e),
            }),
        ensures
            spec_bind(content@, spans, from as int, sv, 0) == Ok::<_, ArgErrorView>(
                args_view(out@),
            ),
        decreases nspecs - j,
    {
        if j == nspecs {
            proof {
                assert(args_view(out@) + Seq::<ArgValueView>::empty() =~= args_view(out@));
            }
            break;
        }
        let ghost t0 = t as int;
        let ghost j0 = j as int;
        let f = &specs[j];
        proof {
            assert(sv[j as int] == specs@[j as int]@);
        }
        let pushed: ArgValue;
        if f.rest {
            if t < ntok {
                let tk = tokens[t];
                pushed = ArgValue::Str(subvec(content, tk.start, content.len()));
                t = ntok;
            } else if f.required {
                return Err(
                    ArgumentError {
                        fragment: Vec::new(),
                        field: f.name.clone(),
                        expected: build_type_desc(f.ty),
                    },
                );
            } else {
                pushed = ArgValue::Absent;
            }
        } else if t >= ntok {
            if f.required {
                return Err(
                    ArgumentError {
                        fragment: Vec::new(),
                        field: f.name.clone(),
                        expected: build_type_desc(f.ty),
                    },
                );
            } else {
                pushed = ArgValue::Absent;
            }
        } else {
            let tk = tokens[t];
            let tok = subvec(content, tk.start, tk.end);
            proof {
                assert(tok@ == span_text(content@, spans[t as int]));
            }
            match f.ty {
                FieldType::Int => {
                    match parse_i64(tok.as_slice()) {
                        Some(v) => {
                            pushed = ArgValue::Int(v);
                            t += 1;
                        },
                        None => {
                            if f.required {
                                return Err(
                                    ArgumentError {
                                        fragment: tok,
                                        field: f.name.clone(),
                                        expected: build_type_desc(f.ty),
                                    },
                                );
                            } else {
                                pushed = ArgValue::Absent;
                            }
                        },
                    }
                },
                FieldType::Str => {
                    pushed = ArgValue::Str(tok);
                    t += 1;
                },
            }
        }
        let ghost out0 = out@;
        let ghost pv = pushed@;
        out.push(pushed);
        proof {
            assert(spec_bind(content@, spans, t0, sv, j0) == spec_bind_cons(
                pv,
                spec_bind(content@, spans, t as int, sv, j0 + 1),
            ));
            assert(args_view(out@) =~= args_view(out0) + seq![pv]);
            if let Ok(v) = spec_bind(content@, spans, t as int, sv, j0 + 1) {
                assert(args_view(out@) + v =~= args_view(out0) + (seq![pv] + v));
            }
        }
        j += 1;
    }
    Ok(out)
}

} // verus!
