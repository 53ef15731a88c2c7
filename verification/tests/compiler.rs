use rustfuck::Compiler;
use rustfuck::PREFACE;

fn hello_source() -> String {
    [
        "++++++++[>++++[>++>+++>+++>+<<<<-]>+>+>->>+[<]<-]>>.\n",
        ">---.+++++++..+++.>>.<-.<.+++.------.--------.>>+.>++.\n",
    ]
    .concat()
}

fn hello_compiled() -> String {
    [
        "#include <stdio.h>\n",
        "\n",
        "int main(void) {\n",
        "    char array[30000] = {0};\n",
        "    char *ptr = array;\n",
        "\n",
        "    (*ptr)++;\n",
        "    (*ptr)++;\n",
        "    (*ptr)++;\n",
        "    (*ptr)++;\n",
        "    (*ptr)++;\n",
        "    (*ptr)++;\n",
        "    (*ptr)++;\n",
        "    (*ptr)++;\n",
        "    while (*ptr) {\n",
        "        ptr++;\n",
        "        (*ptr)++;\n",
        "        (*ptr)++;\n",
        "        (*ptr)++;\n",
        "        (*ptr)++;\n",
        "        while (*ptr) {\n",
        "            ptr++;\n",
        "            (*ptr)++;\n",
        "            (*ptr)++;\n",
        "            ptr++;\n",
        "            (*ptr)++;\n",
        "            (*ptr)++;\n",
        "            (*ptr)++;\n",
        "            ptr++;\n",
        "            (*ptr)++;\n",
        "            (*ptr)++;\n",
        "            (*ptr)++;\n",
        "            ptr++;\n",
        "            (*ptr)++;\n",
        "            ptr--;\n",
        "            ptr--;\n",
        "            ptr--;\n",
        "            ptr--;\n",
        "            (*ptr)--;\n",
        "        }\n",
        "        ptr++;\n",
        "        (*ptr)++;\n",
        "        ptr++;\n",
        "        (*ptr)++;\n",
        "        ptr++;\n",
        "        (*ptr)--;\n",
        "        ptr++;\n",
        "        ptr++;\n",
        "        (*ptr)++;\n",
        "        while (*ptr) {\n",
        "            ptr--;\n",
        "        }\n",
        "        ptr--;\n",
        "        (*ptr)--;\n",
        "    }\n",
        "    ptr++;\n",
        "    ptr++;\n",
        "    putchar(*ptr);\n",
        "    ptr++;\n",
        "    (*ptr)--;\n",
        "    (*ptr)--;\n",
        "    (*ptr)--;\n",
        "    putchar(*ptr);\n",
        "    (*ptr)++;\n",
        "    (*ptr)++;\n",
        "    (*ptr)++;\n",
        "    (*ptr)++;\n",
        "    (*ptr)++;\n",
        "    (*ptr)++;\n",
        "    (*ptr)++;\n",
        "    putchar(*ptr);\n",
        "    putchar(*ptr);\n",
        "    (*ptr)++;\n",
        "    (*ptr)++;\n",
        "    (*ptr)++;\n",
        "    putchar(*ptr);\n",
        "    ptr++;\n",
        "    ptr++;\n",
        "    putchar(*ptr);\n",
        "    ptr--;\n",
        "    (*ptr)--;\n",
        "    putchar(*ptr);\n",
        "    ptr--;\n",
        "    putchar(*ptr);\n",
        "    (*ptr)++;\n",
        "    (*ptr)++;\n",
        "    (*ptr)++;\n",
        "    putchar(*ptr);\n",
        "    (*ptr)--;\n",
        "    (*ptr)--;\n",
        "    (*ptr)--;\n",
        "    (*ptr)--;\n",
        "    (*ptr)--;\n",
        "    (*ptr)--;\n",
        "    putchar(*ptr);\n",
        "    (*ptr)--;\n",
        "    (*ptr)--;\n",
        "    (*ptr)--;\n",
        "    (*ptr)--;\n",
        "    (*ptr)--;\n",
        "    (*ptr)--;\n",
        "    (*ptr)--;\n",
        "    (*ptr)--;\n",
        "    putchar(*ptr);\n",
        "    ptr++;\n",
        "    ptr++;\n",
        "    (*ptr)++;\n",
        "    putchar(*ptr);\n",
        "    ptr++;\n",
        "    (*ptr)++;\n",
        "    (*ptr)++;\n",
        "    putchar(*ptr);\n",
        "}\n",
    ]
    .concat()
}

#[test]
fn compiler_test_new() {
    let compiler = Compiler::new();
    assert_eq!(compiler, Compiler {});
}

#[test]
fn test_compile() {
    let compiler = Compiler::new();
    let source: String = hello_source();
    let expected = hello_compiled();

    let compiled: String = compiler.compile(&source);
    assert_eq!(compiled, expected);
}

#[test]
fn compile_single_increment() {
    let compiled = Compiler::new().compile("+");
    assert_eq!(compiled, format!("{}    (*ptr)++;\n}}\n", PREFACE));
}

#[test]
fn compile_empty_source() {
    let compiled = Compiler::new().compile("");
    assert_eq!(compiled, format!("{}}}\n", PREFACE));
}

#[test]
fn compile_source_without_symbols() {
    let compiled = Compiler::new().compile("Nothing to translate here\n");
    assert_eq!(compiled, format!("{}}}\n", PREFACE));
}

#[test]
fn compile_loop() {
    let compiled = Compiler::new().compile("[,-]");
    let expected = format!(
        "{}    while (*ptr) {{\n        *ptr = getchar();\n        (*ptr)--;\n    }}\n}}\n",
        PREFACE
    );
    assert_eq!(compiled, expected);
}

#[test]
fn compile_twice_gives_the_same_text() {
    let compiler = Compiler::new();
    let first = compiler.compile(&hello_source());
    let second = compiler.compile(&hello_source());
    assert_eq!(first, second);
}

#[test]
fn compile_starts_with_the_preface_and_ends_closed() {
    let compiled = Compiler::new().compile(&hello_source());
    assert!(compiled.starts_with(PREFACE));
    assert!(compiled.ends_with(";\n}\n"));
    assert!(!compiled.ends_with("\n\n"));
}

#[test]
fn preface_declares_cells_and_pointer() {
    let expected: String = [
        "#include <stdio.h>\n",
        "\n",
        "int main(void) {\n",
        "    char array[30000] = {0};\n",
        "    char *ptr = array;\n",
        "\n",
    ]
    .concat();
    assert_eq!(PREFACE, expected);
}
