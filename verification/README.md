# rustcc

A small compiler for a subset of C, written in Verus: every stage of it is
stated as a specification and proved to follow it.

Production rule of the accepted language:

```
program     ::= (type ident (function | global_decl))*
function    ::= "(" paramlist? ")" "{" stmt* "}"
global_decl ::= ("[" num "]")*        (a ";" right after it is taken with it)
paramlist   ::= type ident ("," type ident)*
stmt        ::= expr ";"
              | "{" stmt* "}"
              | "if" "(" expr ")" stmt ("else" stmt)?
              | "while" "(" expr ")" stmt
              | "for" "(" expr? ";" expr? ";" expr? ")" stmt
              | "return" expr ";"
              | decl ";"
decl        ::= type ident ("[" num "]")* ("=" expr)?
expr        ::= assign
assign      ::= equality ("=" assign)?
equality    ::= relational ("==" relational | "!=" relational)*
relational  ::= add ("<" add | "<=" add | ">" add | ">=" add)*
add         ::= mul ("+" mul | "-" mul)*
mul         ::= unary ("*" unary | "/" unary)*
unary       ::= "sizeof" unary
              | ("+" | "-")? primary
              | ("*" | "&") unary
primary     ::= num
              | ident ("(" arglist? ")")?
              | ident ("[" expr "]")+
              | "(" expr ")"
arglist     ::= expr ("," expr)*
type        ::= base_type "*"*
base_type   ::= "int" | "char"
```

## Layout

- `src/text.rs`: character classes, decimal text, and the helpers that build
  lines of assembly.
- `src/lexer.rs`, `src/tokenizer.rs`: the two scanners, each specified by a
  function from the input characters to its tokens (`lex_spec`, `scan_spec`).
- `src/compiler.rs`, `src/listing.rs`: the compiler of sums and differences,
  and the model of emitted lines.
- `src/ast.rs`: syntax trees, types, and the typing rule of `create_new_node`.
- `src/grammar.rs`: the meaning of each parsing function as a function of the
  tokens, the position and the symbol tables.
- `src/parser.rs` with `src/parser/`: the recursive-descent parser, proved to
  follow `grammar`.
- `src/codegen.rs`: what the code generator emits for a tree.
- `src/gen.rs`: the code generator, proved to follow `codegen`.
- `app/`: the command-line program: it reads the argument, runs the stages,
  prints the assembly and reports errors.
- `tests/`: tests on concrete inputs.
