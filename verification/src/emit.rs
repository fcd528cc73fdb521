//! A WebAssembly module that prints one message.
use vstd::prelude::*;
use wasm_encoder::Section;

verus! {

/// Where the message stands in linear memory.
pub const DATA_OFFSET: i32 = 1024;

/// The size of one page of linear memory.
pub const PAGE_SIZE: usize = 65536;

/// An unsigned number in LEB128.
pub open spec fn leb(value: nat) -> Seq<u8>
    decreases value,
{
    if value < 128 {
        seq![value as u8]
    } else {
        seq![(value % 128 + 128) as u8] + leb(value / 128)
    }
}

/// A number that is not negative in signed LEB128.
pub open spec fn signed_leb(value: nat) -> Seq<u8>
    decreases value,
{
    if value < 64 {
        seq![value as u8]
    } else {
        seq![(value % 128 + 128) as u8] + signed_leb(value / 128)
    }
}

/// A section: its number, its size and its contents.
pub open spec fn section(id: u8, contents: Seq<u8>) -> Seq<u8> {
    seq![id] + leb(contents.len()) + contents
}

pub open spec fn header() -> Seq<u8> {
    seq![0u8, 0x61, 0x73, 0x6d, 1, 0, 0, 0]
}

/// A list of bytes behind its length.
pub open spec fn counted(bytes: Seq<u8>) -> Seq<u8> {
    leb(bytes.len()) + bytes
}

/// A name of ASCII characters behind its length.
pub open spec fn named(name: Seq<char>) -> Seq<u8> {
    counted(name.map_values(|c: char| c as u8))
}

pub open spec fn is_ascii(name: Seq<char>) -> bool {
    &&& name.len() < 0x1_0000
    &&& forall|i: int| 0 <= i < name.len() ==> (#[trigger] name[i] as int) < 128
}

/// The type of a function from a number of 32-bit integers to nothing.
pub open spec fn function_type(parameters: nat) -> Seq<u8> {
    seq![0x60u8] + counted(Seq::new(parameters, |i: int| 0x7fu8)) + seq![0u8]
}

/// Two function types.
pub open spec fn type_section(first: nat, second: nat) -> Seq<u8> {
    section(1, seq![2u8] + function_type(first) + function_type(second))
}

/// One import of a function by a module and a name.
pub open spec fn import_section(module: Seq<char>, name: Seq<char>, function_type: nat) -> Seq<u8> {
    section(2, seq![1u8] + named(module) + named(name) + seq![0u8] + leb(function_type))
}

/// One function of a type.
pub open spec fn function_section(function_type: nat) -> Seq<u8> {
    section(3, seq![1u8] + leb(function_type))
}

/// One memory of at least a number of pages.
pub open spec fn memory_section(pages: nat) -> Seq<u8> {
    section(5, seq![1u8, 0] + leb(pages))
}

/// A memory and a function, each under a name.
pub open spec fn export_section(memory_name: Seq<char>, memory: nat, function_name: Seq<char>, function: nat) -> Seq<u8> {
    section(
        7,
        seq![2u8] + named(memory_name) + seq![2u8] + leb(memory) + named(function_name) + seq![0u8] + leb(function),
    )
}

/// A body without locals that calls a function with two numbers.
pub open spec fn calling_body(first: nat, second: nat, function: nat) -> Seq<u8> {
    seq![0u8, 0x41] + signed_leb(first) + seq![0x41u8] + signed_leb(second) + seq![0x10u8] + leb(function) + seq![0x0bu8]
}

/// One body.
pub open spec fn code_section(body: Seq<u8>) -> Seq<u8> {
    section(10, seq![1u8] + counted(body))
}

/// One data segment that puts bytes at an offset of the first memory.
pub open spec fn data_section(offset: nat, bytes: Seq<u8>) -> Seq<u8> {
    section(11, seq![1u8, 0, 0x41] + signed_leb(offset) + seq![0x0bu8] + counted(bytes))
}

/// `wasm_encoder::Module` without sections: the magic number and the version.
#[verifier::external_body]
fn empty_module() -> (bytes: Vec<u8>)
    ensures
        bytes@ == header(),
{
    wasm_encoder::Module::new().finish()
}

/// `wasm_encoder::TypeSection` with two function types, each from a number of
/// 32-bit integers to nothing.
#[verifier::external_body]
fn encode_types(first: usize, second: usize) -> (bytes: Vec<u8>)
    requires
        first <= 1000,
        second <= 1000,
    ensures
        bytes@ == type_section(first as nat, second as nat),
{
    let mut types = wasm_encoder::TypeSection::new();
    types.ty().function(vec![wasm_encoder::ValType::I32; first], []);
    types.ty().function(vec![wasm_encoder::ValType::I32; second], []);
    let mut bytes = Vec::new();
    types.append_to(&mut bytes);
    bytes
}

/// `wasm_encoder::ImportSection` with one function.
#[verifier::external_body]
fn encode_import(module: &str, name: &str, function_type: u32) -> (bytes: Vec<u8>)
    requires
        is_ascii(module@),
        is_ascii(name@),
    ensures
        bytes@ == import_section(module@, name@, function_type as nat),
{
    let mut imports = wasm_encoder::ImportSection::new();
    imports.import(module, name, wasm_encoder::EntityType::Function(function_type));
    let mut bytes = Vec::new();
    imports.append_to(&mut bytes);
    bytes
}

/// `wasm_encoder::FunctionSection` with one function.
#[verifier::external_body]
fn encode_function(function_type: u32) -> (bytes: Vec<u8>)
    ensures
        bytes@ == function_section(function_type as nat),
{
    let mut functions = wasm_encoder::FunctionSection::new();
    functions.function(function_type);
    let mut bytes = Vec::new();
    functions.append_to(&mut bytes);
    bytes
}

/// `wasm_encoder::MemorySection` with one memory that may grow without limit.
#[verifier::external_body]
fn encode_memory(pages: u64) -> (bytes: Vec<u8>)
    ensures
        bytes@ == memory_section(pages as nat),
{
    let mut memory = wasm_encoder::MemorySection::new();
    memory.memory(
        wasm_encoder::MemoryType { minimum: pages, maximum: None, memory64: false, shared: false, page_size_log2: None },
    );
    let mut bytes = Vec::new();
    memory.append_to(&mut bytes);
    bytes
}

/// `wasm_encoder::ExportSection` with a memory and a function.
#[verifier::external_body]
fn encode_exports(memory_name: &str, memory: u32, function_name: &str, function: u32) -> (bytes: Vec<u8>)
    requires
        is_ascii(memory_name@),
        is_ascii(function_name@),
    ensures
        bytes@ == export_section(memory_name@, memory as nat, function_name@, function as nat),
{
    let mut exports = wasm_encoder::ExportSection::new();
    exports.export(memory_name, wasm_encoder::ExportKind::Memory, memory);
    exports.export(function_name, wasm_encoder::ExportKind::Func, function);
    let mut bytes = Vec::new();
    exports.append_to(&mut bytes);
    bytes
}

/// `wasm_encoder::CodeSection` with one body, a `wasm_encoder::Function` that
/// calls another with two numbers.
#[verifier::external_body]
fn encode_code(first: i32, second: i32, function: u32) -> (bytes: Vec<u8>)
    requires
        0 <= first,
        0 <= second,
    ensures
        bytes@ == code_section(calling_body(first as nat, second as nat, function as nat)),
{
    let mut body = wasm_encoder::Function::new(vec![]);
    body.instructions().i32_const(first).i32_const(second).call(function).end();
    let mut codes = wasm_encoder::CodeSection::new();
    codes.function(&body);
    let mut bytes = Vec::new();
    codes.append_to(&mut bytes);
    bytes
}

/// `wasm_encoder::DataSection` with bytes at an offset of the first
/// memory.
#[verifier::external_body]
fn encode_data(offset: i32, message: &[u8]) -> (bytes: Vec<u8>)
    requires
        0 <= offset,
        message@.len() <= 65536,
    ensures
        bytes@ == data_section(offset as nat, message@),
{
    let mut data = wasm_encoder::DataSection::new();
    data.active(0, &wasm_encoder::ConstExpr::i32_const(offset), message.iter().copied());
    let mut bytes = Vec::new();
    data.append_to(&mut bytes);
    bytes
}

/// The module that prints a message: it has a type from two numbers and one from
/// nothing, imports `env.println` of the first type, has one function of the
/// second, which calls the import with the place and the length of the message,
/// and exports its memory of one page and that function.
pub open spec fn println_module(message: Seq<u8>) -> Seq<u8> {
    header() + type_section(2, 0) + import_section("env"@, "println"@, 0) + function_section(1) + memory_section(1)
    + export_section("memory"@, 0, "main"@, 1) + code_section(calling_body(DATA_OFFSET as nat, message.len(), 0))
    + data_section(DATA_OFFSET as nat, message)
}

fn append(bytes: &mut Vec<u8>, mut more: Vec<u8>)
    ensures
        final(bytes)@ == old(bytes)@ + more@,
{
    bytes.append(&mut more);
}

/// A module that imports `env.println` and calls it with the message, which
/// must fit into one page behind its offset.
pub fn emit_println_wasm(message: &[u8]) -> (bytes: Vec<u8>)
    requires
        DATA_OFFSET + message@.len() <= PAGE_SIZE,
    ensures
        bytes@ == println_module(message@),
{
    let length: i32 = message.len() as i32;
    let mut bytes = empty_module();
    proof {
        reveal_strlit("env");
        reveal_strlit("println");
        reveal_strlit("memory");
        reveal_strlit("main");
    }
    append(&mut bytes, encode_types(2, 0));
    append(&mut bytes, encode_import("env", "println", 0));
    append(&mut bytes, encode_function(1));
    append(&mut bytes, encode_memory(1));
    append(&mut bytes, encode_exports("memory", 0, "main", 1));
    append(&mut bytes, encode_code(DATA_OFFSET, length, 0));
    append(&mut bytes, encode_data(DATA_OFFSET, message));
    bytes
}

} // verus!
