use ptx_parser::function::{
    parse_function, parse_function_body, parse_function_signature, Function, FunctionBody,
    FunctionSignature, Parameter, Parameters, ReturnValue,
};
use ptx_parser::params::type_width;
use ptx_parser::scan::ParseError;

#[test]
fn visible_entry_name() {
    let input = ".visible .entry _Z6kernelPiS_i";
    let signature = parse_function_signature(input);
    assert_eq!(
        signature,
        Ok((
            "",
            FunctionSignature {
                visible: true,
                entry: true,
                return_value: None,
                name: "_Z6kernelPiS_i",
                parameters: None,
            }
        ))
    )
}

#[test]
fn func_no_return_no_parameters() {
    let input = ".func _Z6kernelPiS_i";
    let signature = parse_function_signature(input);
    assert_eq!(
        signature,
        Ok((
            "",
            FunctionSignature {
                visible: false,
                entry: false,
                return_value: None,
                name: "_Z6kernelPiS_i",
                parameters: None,
            }
        ))
    )
}

#[test]
fn func_no_return_trivial_parameters() {
    let input = ".func _ZN4core9panicking(hi)";
    let signature = parse_function_signature(input);
    assert_eq!(
        signature,
        Ok((
            "",
            FunctionSignature {
                visible: false,
                entry: false,
                return_value: None,
                name: "_ZN4core9panicking",
                parameters: Some(Parameters {
                    raw_string: "hi",
                    params: vec![],
                }),
            }
        ))
    )
}

#[test]
fn func_no_return_some_parameters() {
    let input = ".func _ZN4core9panicking
(
	.param .b64 _ZN4core9panicking_param_0,
	.param .b64 _ZN4core9panicking_param_1,
	.param .b64 _ZN4core9panicking_param_2
)";
    let signature = parse_function_signature(input);
    assert_eq!(
        signature,
        Ok((
            "",
            FunctionSignature {
                visible: false,
                entry: false,
                return_value: None,
                name: "_ZN4core9panicking",
                parameters: Some(Parameters {
                    raw_string: "
	.param .b64 _ZN4core9panicking_param_0,
	.param .b64 _ZN4core9panicking_param_1,
	.param .b64 _ZN4core9panicking_param_2
",
                    params: vec![
                        Parameter {
                            name: "_ZN4core9panicking_param_0",
                            ty: ".b64",
                            size: 8,
                            raw_string: ".param .b64 _ZN4core9panicking_param_0",
                        },
                        Parameter {
                            name: "_ZN4core9panicking_param_1",
                            ty: ".b64",
                            size: 8,
                            raw_string: ".param .b64 _ZN4core9panicking_param_1",
                        },
                        Parameter {
                            name: "_ZN4core9panicking_param_2",
                            ty: ".b64",
                            size: 8,
                            raw_string: ".param .b64 _ZN4core9panicking_param_2",
                        },
                    ],
                }),
            }
        ))
    )
}

#[test]
fn func_return_and_parameters() {
    let input = ".func  (.param .b64 func_retval0) _foo(
	.param .b64 _foo_param_0,
	.param .b64 _foo_param_1
)";
    let signature = parse_function_signature(input);
    assert_eq!(
        signature,
        Ok((
            "",
            FunctionSignature {
                visible: false,
                entry: false,
                return_value: Some(ReturnValue {
                    raw_string: ".param .b64 func_retval0"
                }),
                name: "_foo",
                parameters: Some(Parameters {
                    raw_string: "
	.param .b64 _foo_param_0,
	.param .b64 _foo_param_1
",
                    params: vec![
                        Parameter {
                            name: "_foo_param_0",
                            ty: ".b64",
                            size: 8,
                            raw_string: ".param .b64 _foo_param_0",
                        },
                        Parameter {
                            name: "_foo_param_1",
                            ty: ".b64",
                            size: 8,
                            raw_string: ".param .b64 _foo_param_1",
                        },
                    ]
                })
            }
        ))
    )
}

#[test]
fn empty() {
    let input = ";";
    let body = parse_function_body(input);
    assert!(body.is_err())
}

#[test]
fn non_empty() {
    let input = "{.reg .b32 %r<3>}";
    let body = parse_function_body(input);
    assert_eq!(
        body,
        Ok((
            "",
            FunctionBody {
                body: Some(".reg .b32 %r<3>")
            }
        ))
    )
}

#[test]
fn no_return_no_parameters_no_body() {
    let input = ".func _Z6kernelPiS_i;";
    let function = parse_function(input);
    assert_eq!(
        function,
        Ok((
            "",
            Function {
                signature: FunctionSignature {
                    visible: false,
                    entry: false,
                    return_value: None,
                    name: "_Z6kernelPiS_i",
                    parameters: None,
                },
                body: None,
            }
        ))
    )
}

#[test]
fn no_return_no_parameters_with_body() {
    let input = ".func _Z6kernelPiS_i { \n foo \n bar }";
    let function = parse_function(input);
    assert_eq!(
        function,
        Ok((
            "",
            Function {
                signature: FunctionSignature {
                    visible: false,
                    entry: false,
                    return_value: None,
                    name: "_Z6kernelPiS_i",
                    parameters: None,
                },
                body: Some(FunctionBody {
                    body: Some(" \n foo \n bar ")
                }),
            }
        ))
    )
}

#[test]
fn body_keeps_nested_braces() {
    let input = ".func f\n// comment\n{ a { b } c }\n";
    let (rest, function) = parse_function(input).unwrap();
    assert_eq!(rest, "\n");
    assert_eq!(
        function.body,
        Some(FunctionBody {
            body: Some(" a { b } c ")
        })
    );
}

#[test]
fn single_word_line_gives_no_parameter() {
    let input = ".func f(\n\tword\n)";
    let (_, signature) = parse_function_signature(input).unwrap();
    let parameters = signature.parameters.unwrap();
    assert_eq!(parameters.params, vec![]);
    assert_eq!(parameters.raw_string, "\n\tword\n");
}

#[test]
fn unknown_type_is_an_error() {
    let input = ".func f(\n\t.param .q64 x\n);";
    assert_eq!(
        parse_function_signature(input),
        Err(ParseError::UnknownType(".q64"))
    );
    assert_eq!(parse_function(input), Err(ParseError::UnknownType(".q64")));
}

#[test]
fn only_one_trailing_comma_is_removed() {
    let (_, signature) = parse_function_signature(".func f(\n.param .u32 a,,\n)").unwrap();
    let params = signature.parameters.unwrap().params;
    assert_eq!(
        params,
        vec![Parameter {
            name: "a,",
            ty: ".u32",
            size: 4,
            raw_string: ".param .u32 a,",
        }]
    );
}

#[test]
fn widths_of_every_known_type() {
    let table = [
        (".s8", 1),
        (".s16", 2),
        (".s32", 4),
        (".s64", 8),
        (".u8", 1),
        (".u16", 2),
        (".u32", 4),
        (".u64", 8),
        (".f16", 2),
        (".f16x2", 4),
        (".f32", 4),
        (".f64", 8),
        (".b8", 1),
        (".b16", 2),
        (".b32", 4),
        (".b64", 8),
        (".b128", 16),
    ];
    for (ty, width) in table {
        assert_eq!(type_width(ty), Some(width));
    }
    assert_eq!(type_width(".pred"), None);
    assert_eq!(type_width("b64"), None);
}

#[test]
fn parameters_of_mixed_widths() {
    let input = ".visible .entry k(\n\t.param .u8 a,\n\t.param .f16x2 b,\n\t.param .b128 c\n)";
    let (_, signature) = parse_function_signature(input).unwrap();
    let sizes: Vec<usize> = signature
        .parameters
        .unwrap()
        .params
        .iter()
        .map(|p| p.size)
        .collect();
    assert_eq!(sizes, vec![1, 4, 16]);
}

#[test]
fn signature_needs_a_marker_and_a_blank() {
    assert!(parse_function_signature(".global x").is_err());
    assert!(parse_function_signature(".func").is_err());
    assert!(parse_function_signature(".visible .func f").is_err());
    assert!(parse_function_signature(".visible\t.entry\tk").is_ok());
}

#[test]
fn function_needs_a_terminator() {
    assert!(parse_function(".func f").is_err());
    assert!(parse_function(".func f {").is_err());
}

#[test]
fn comment_before_parameter_group() {
    let input = ".func f /* c */ (hi)";
    assert_eq!(
        parse_function_signature(input),
        Ok((
            "",
            FunctionSignature {
                visible: false,
                entry: false,
                return_value: None,
                name: "f",
                parameters: Some(Parameters {
                    raw_string: "hi",
                    params: vec![],
                }),
            }
        ))
    );
}

#[test]
fn line_comment_before_parameter_group() {
    let input = ".visible .entry k // params follow
(
	.param .u32 a
)
{ ret; }";
    let (rest, function) = parse_function(input).unwrap();
    assert_eq!(rest, "");
    let params = function.signature.parameters.unwrap().params;
    assert_eq!(params.len(), 1);
    assert_eq!(params[0].name, "a");
    assert_eq!(params[0].size, 4);
}

#[test]
fn empty_parameter_group() {
    let input = ".visible .entry k()
{
	ret;
}";
    let (rest, function) = parse_function(input).unwrap();
    assert_eq!(rest, "");
    assert_eq!(
        function.signature.parameters,
        Some(Parameters {
            raw_string: "",
            params: vec![],
        })
    );
    assert_eq!(
        function.body,
        Some(FunctionBody {
            body: Some("
	ret;
")
        })
    );
}

#[test]
fn refusals_are_anchored() {
    assert_eq!(
        parse_function_signature(".global x"),
        Err(ParseError::Mismatch(".global x"))
    );
    assert_eq!(
        parse_function_signature(".func;"),
        Err(ParseError::Mismatch(";"))
    );
    assert_eq!(
        parse_function_signature(".func (r) ;"),
        Err(ParseError::Mismatch(";"))
    );
    assert_eq!(parse_function(".func f {"), Err(ParseError::Mismatch("")));
    assert_eq!(parse_function(".func f x"), Err(ParseError::Mismatch("x")));
    assert_eq!(parse_function_body("x{}"), Err(ParseError::Mismatch("x{}")));
}
