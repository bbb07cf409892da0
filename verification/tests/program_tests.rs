use tol::compile_source;

const PROGRAM: &str = r#"// Isang maliit na programa
bagay Punto {
    x: i32,
    y: i32,
}

itupad Punto {
    paraan bago(x: i32, y: i32) Punto {
        ibalik Punto!(x: x, y: y)
    }

    paraan kabuuan(ako) i32 {
        ibalik ako.x + ako.y
    }
}

paraan doble(n: i32) -> i32 {
    ibalik n * 2
}

paraan una() {
    ang p = Punto::bago(1, 2)
    ang maiba kabuuan: i32 = p.kabuuan()
    kabuuan = doble(kabuuan)
    ang mga_numero: [4]i32 = [1, 2, 3]
    sa 0..3 => i {
        @println(b"ikot")
    }
    kung kabuuan {
        @print(b"meron")
    } kungwala {
        @alis(1)
    }
}
"#;

#[test]
fn a_whole_program_is_compiled() {
    let result = compile_source(PROGRAM.to_string(), "programa.tol".to_string());
    let messages: Vec<&str> = result.diagnostics.iter().map(|e| e.message()).collect();
    assert_eq!(messages, Vec::<&str>::new());
    let c = result.c_code.expect("no C text");
    assert_eq!(
        c,
        [
            "#include \"tol_helper.h\"\n#include <stdio.h>\n#include <stdlib.h>\n",
            "typedef struct Punto{int32_t x;int32_t y;}Punto;\n",
            "DEFINE_TOL_ARRAY_STRUCT(int32_t)\n",
            "Punto bago(int32_t x,int32_t y){return (struct Punto){ .x=x,.y=y };}",
            "int32_t kabuuan(Punto ako){return (ako.x + ako.y);}",
            "int32_t doble(int32_t n){return (n * 2);}",
            "void __TOL_main__(){",
            "const Punto p = bago(1,2);",
            "int32_t kabuuan = (kabuuan(p));",
            "kabuuan = (doble(kabuuan));",
            "const TOL_Array_int32_t mga_numero = (TOL_Array_int32_t){ .data = (int32_t[]){1,2,3,0}, .len = 4 };",
            "for (size_t i = 0; i < 3; i++) {puts((TOL_Array_uint8_t){ .data = \"ikot\", .len = 4 });}",
            "if (kabuuan){fputs((TOL_Array_uint8_t){ .data = \"meron\", .len = 5 }, stdout);}",
            "else {exit(1);}",
            "}",
            "int main(){__TOL_main__();return 0;}",
        ]
        .join("")
    );
}

#[test]
fn diagnostics_come_stage_after_stage() {
    let result = compile_source(
        "ang a = $;\nang b: i32 = 1.5\nang c = (1;\n".to_string(),
        "t.tol".to_string(),
    );
    let messages: Vec<(usize, usize, &str)> =
        result.diagnostics.iter().map(|e| (e.line(), e.column(), e.message())).collect();
    assert_eq!(
        messages,
        vec![
            (1, 9, "Hindi valid na karakter: `$`"),
            (1, 10, "Umasa ng expresyon pero nakita ay ;"),
            (3, 11, "Umasa ng `)` pero nakita ay ;"),
            (2, 1, "Ang tipong `literal na lutang` ay hindi bagay sa tipong `i32`"),
        ]
    );
    assert!(result.c_code.is_none());
}

#[test]
fn a_long_source_is_lexed_and_parsed() {
    let mut source = String::new();
    for i in 0..2000 {
        source.push_str(&format!("ang x{} = {} + {} * 2\n", i, i, i + 1));
    }
    let result = compile_source(source, "mahaba.tol".to_string());
    assert!(result.diagnostics.is_empty());
    assert_eq!(result.tokens.len(), 2000 * 9 + 1);
    assert!(result.c_code.is_some());
}
