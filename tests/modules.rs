use ptx_parser::function::{
    Function, FunctionBody, FunctionSignature, Parameter, Parameters, ReturnValue,
};
use ptx_parser::module::{
    parse_global, parse_preamble, FunctionOrGlobal, Global, Preamble, PtxFile, PtxParser,
};
use ptx_parser::scan::ParseError;

const EXAMPLE_FILE: &str = "//
// Generated by NVIDIA NVVM Compiler
//
// Compiler Build ID: CL-31833905
// Based on NVVM 7.0.1
//

.version 7.8
.target sm_52
.address_size 64

/* string constant */
.global .align 1 .b8 $str[6] = {104, 101, 108, 108, 111, 0};

.func  (.param .b64 func_retval0) _foo(
	.param .b64 _foo_param_0,
	.param .b64 _foo_param_1
)
{
	.reg .b64 	%rd<4>;

	ld.param.u64 	%rd1, [_foo_param_0];
	ld.param.u64 	%rd2, [_foo_param_1];
	add.s64 	%rd3, %rd1, %rd2;
	st.param.b64 	[func_retval0+0], %rd3;
	ret;

}
	// .globl	_Z6kernelPiS_i
.visible .entry _Z6kernelPiS_i(
	.param .u64 _Z6kernelPiS_i_param_0,
	.param .u32 _Z6kernelPiS_i_param_1
)
{
	.reg .b32 	%r<3>;
	.reg .b64 	%rd<3>;

	ld.param.u64 	%rd1, [_Z6kernelPiS_i_param_0];
	ld.param.u32 	%r1, [_Z6kernelPiS_i_param_1];
	cvta.to.global.u64 	%rd2, %rd1;
	st.global.u32 	[%rd2], %r1;
	ret;

}
";

const KERNEL: &str = "//
// Generated by NVIDIA NVVM Compiler
//

.version 7.5
.target sm_80
.address_size 64

	// .globl	kernel

.visible .entry kernel(
	.param .u64 kernel_param_0
)
{
	.reg .pred 	%p<2>;
	.reg .b32 	%r<5>;
	.reg .b64 	%rd<5>;

	ld.param.u64 	%rd1, [kernel_param_0];
	mov.u32 	%r1, %tid.x;
	setp.gt.s32 	%p1, %r1, 31;
	@%p1 bra 	$L__BB0_2;
	{ // nested scope
	cvta.to.global.u64 	%rd2, %rd1;
	}
$L__BB0_2:
	ret;

}
";

#[test]
fn parse_example() {
    let mut ptx = PtxParser::new(EXAMPLE_FILE).unwrap();
    println!("Preamble: {preamble:?}", preamble = ptx.preamble());
    let mut count = 0;
    while let Some(item) = ptx.next() {
        println!("{item:?}\n");
        assert!(item.is_ok());
        count += 1;
    }
    assert_eq!(count, 3);
}

#[test]
fn parse_kernel() {
    let mut ptx = PtxParser::new(KERNEL).unwrap();
    println!("Preamble: {preamble:?}", preamble = ptx.preamble());
    let mut count = 0;
    while let Some(item) = ptx.next() {
        println!("{item:?}\n");
        assert!(item.is_ok());
        count += 1;
    }
    assert_eq!(count, 1);
}

#[test]
fn preamble_fields() {
    let ptx = PtxParser::new(KERNEL).unwrap();
    assert_eq!(
        ptx.preamble(),
        &Preamble {
            version: "7.5",
            target: "sm_80",
            address_size: "64",
        }
    );
}

#[test]
fn preamble_out_of_order_is_refused() {
    assert!(parse_preamble(".target sm_80\n.version 7.5\n.address_size 64\n").is_err());
    assert!(PtxParser::new("// nothing but a comment\n").is_err());
    assert!(PtxParser::new("").is_err());
}

#[test]
fn global_up_to_semicolon() {
    assert_eq!(
        parse_global(".global .u32 counter;\n"),
        Ok(("\n", Global { raw_string: ".u32 counter" }))
    );
    assert!(parse_global(".global .u32 counter").is_err());
    assert!(parse_global(".globalx;").is_err());
}

#[test]
fn cursor_yields_declarations_in_order() {
    let text = "// header\n.version 8.0\n.target sm_90\n.address_size 64\n\n\
// first function\n.func first;\n\
/* second function */\n.visible .entry second(\n\t.param .u32 second_param_0\n)\n{\n\tret;\n}\n\
// a global\n.global .u32 g;\n// trailing comment\n";
    let mut cursor = PtxParser::new(text).unwrap();
    let first = cursor.next().unwrap().unwrap().1;
    assert_eq!(
        first,
        FunctionOrGlobal::Function(Function {
            signature: FunctionSignature {
                visible: false,
                entry: false,
                return_value: None,
                name: "first",
                parameters: None,
            },
            body: None,
        })
    );
    let second = cursor.next().unwrap().unwrap().1;
    assert_eq!(
        second,
        FunctionOrGlobal::Function(Function {
            signature: FunctionSignature {
                visible: true,
                entry: true,
                return_value: None,
                name: "second",
                parameters: Some(Parameters {
                    params: vec![Parameter {
                        name: "second_param_0",
                        ty: ".u32",
                        size: 4,
                        raw_string: ".param .u32 second_param_0",
                    }],
                    raw_string: "\n\t.param .u32 second_param_0\n",
                }),
            },
            body: Some(FunctionBody {
                body: Some("\n\tret;\n"),
            }),
        })
    );
    let third = cursor.next().unwrap().unwrap().1;
    assert_eq!(
        third,
        FunctionOrGlobal::Global(Global {
            raw_string: ".u32 g"
        })
    );
    assert!(cursor.next().is_none());
    assert!(cursor.next().is_none());
    assert_eq!(cursor.remaining(), None);
}

#[test]
fn cursor_ends_after_a_failure() {
    let text = ".version 8.0\n.target sm_90\n.address_size 64\n.func ok;\nnonsense\n.func never;\n";
    let mut cursor = PtxParser::new(text).unwrap();
    assert!(cursor.next().unwrap().is_ok());
    assert!(matches!(cursor.next(), Some(Err(ParseError::Mismatch(_)))));
    assert!(cursor.next().is_none());
}

#[test]
fn cursor_surfaces_unknown_type() {
    let text = ".version 8.0\n.target sm_90\n.address_size 64\n.func f(\n.param .x7 a\n);\n";
    let mut cursor = PtxParser::new(text).unwrap();
    assert_eq!(cursor.next(), Some(Err(ParseError::UnknownType(".x7"))));
    assert!(cursor.next().is_none());
}

#[test]
fn whole_module_at_once() {
    let module = PtxFile::parse(EXAMPLE_FILE).unwrap();
    assert_eq!(module.preamble().version, "7.8");
    assert_eq!(module.preamble().target, "sm_52");
    assert_eq!(module.functions().len(), 2);
    assert_eq!(module.functions()[0].signature.name, "_foo");
    assert_eq!(
        module.functions()[0].signature.return_value,
        Some(ReturnValue {
            raw_string: ".param .b64 func_retval0"
        })
    );
    assert_eq!(module.functions()[1].signature.name, "_Z6kernelPiS_i");
    assert!(module.functions()[1].signature.entry);
    assert_eq!(module.globals().len(), 1);
    assert_eq!(
        module.globals()[0].raw_string,
        ".align 1 .b8 $str[6] = {104, 101, 108, 108, 111, 0}"
    );
}

#[test]
fn whole_module_fails_on_bad_declaration() {
    let text = ".version 8.0\n.target sm_90\n.address_size 64\n.func f\n";
    assert!(PtxFile::parse(text).is_err());
}

#[test]
fn preamble_failure_is_anchored_at_the_missing_directive() {
    assert_eq!(
        parse_preamble(".version 7.5\n// no target\n.address_size 64\n"),
        Err(ParseError::Mismatch(".address_size 64\n"))
    );
    assert!(matches!(
        PtxParser::new("// header\n.version 7.5\n.target sm_80\n"),
        Err(ParseError::Mismatch(""))
    ));
    assert!(matches!(
        PtxParser::new("  .target sm_80\n"),
        Err(ParseError::Mismatch(".target sm_80\n"))
    ));
}

#[test]
fn failed_step_is_anchored_where_both_grammars_failed() {
    let text = ".version 8.0\n.target sm_90\n.address_size 64\n.func ok;\n// note\nnonsense;\n";
    let mut cursor = PtxParser::new(text).unwrap();
    assert!(cursor.next().unwrap().is_ok());
    assert_eq!(
        cursor.next(),
        Some(Err(ParseError::Mismatch("nonsense;\n")))
    );
    assert!(cursor.next().is_none());
    assert!(matches!(
        PtxFile::parse(text),
        Err(ParseError::Mismatch("nonsense;\n"))
    ));
}
