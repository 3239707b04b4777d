//! Finding the log transport's control block in a firmware file.

use vstd::prelude::*;

verus! {

/// An error of the object file reader.
#[verifier::external_type_specification]
#[verifier::external_body]
pub struct ExReadError(object::read::Error);

/// A symbol of an object file: its name, if it has a readable one, and its
/// address.
pub struct ElfSymbol {
    pub name: Option<String>,
    pub address: u64,
}

/// A symbol's name and address as values.
pub struct SymbolView {
    pub name: Option<Seq<char>>,
    pub address: u64,
}

impl ElfSymbol {
    /// The symbol's name and address.
    pub open spec fn view(&self) -> SymbolView {
        SymbolView {
            name: match self.name {
                Some(name) => Some(name@),
                None => None,
            },
            address: self.address,
        }
    }
}

/// The symbols as values.
pub open spec fn views(symbols: Seq<ElfSymbol>) -> Seq<SymbolView> {
    Seq::new(symbols.len(), |i: int| symbols[i]@)
}

/// What `object` finds in a file: its symbols in the order of its symbol table,
/// or the error that stops it.
pub uninterp spec fn file_symbols(data: Seq<u8>) -> Result<Seq<SymbolView>, object::read::Error>;

/// Reads the symbol table of an object file with `object::File::parse` and
/// `Object::symbols`, taking each symbol's `name` and `address`.
///
/// Believed of it: whether it succeeds, the symbols and their order, and the
/// error are determined by the file's bytes. A name that cannot be read is
/// `None`.
#[verifier::external_body]
fn symbols_of_file(data: &[u8]) -> (symbols: Result<Vec<ElfSymbol>, object::read::Error>)
    ensures
        match symbols {
            Ok(list) => file_symbols(data@) == Ok::<Seq<SymbolView>, object::read::Error>(views(list@)),
            Err(e) => file_symbols(data@) == Err::<Seq<SymbolView>, object::read::Error>(e),
        },
{
    let file = object::File::parse(data)?;
    let symbols = object::Object::symbols(&file);
    Ok(symbols.map(|s| ElfSymbol {
        name: object::ObjectSymbol::name(&s).ok().map(String::from),
        address: object::ObjectSymbol::address(&s),
    }).collect())
}

/// Why no address could be looked for.
pub enum ElfError {
    /// The file is no object file that can be read.
    Parse(object::read::Error),
}

/// The address of the first symbol that names the control block.
pub open spec fn control_block(symbols: Seq<SymbolView>) -> Option<u64>
    decreases symbols.len(),
{
    if symbols.len() == 0 {
        None
    } else if symbols[0].name == Some("_SEGGER_RTT"@) {
        Some(symbols[0].address)
    } else {
        control_block(symbols.drop_first())
    }
}

/// The address of the first of some symbols that names the control block.
pub fn rtt_symbol(symbols: &Vec<ElfSymbol>) -> (address: Option<u64>)
    ensures
        address == control_block(views(symbols@)),
{
    let wanted: String = "_SEGGER_RTT".to_owned();
    assert(views(symbols@).skip(0) =~= views(symbols@));
    for i in 0..symbols.len()
        invariant
            wanted@ == "_SEGGER_RTT"@,
            control_block(views(symbols@)) == control_block(views(symbols@).skip(i as int)),
    {
        assert(views(symbols@).skip(i as int).drop_first() =~= views(symbols@).skip(i + 1));
        if let Some(name) = &symbols[i].name {
            if *name == wanted {
                return Some(symbols[i].address);
            }
        }
    }
    None
}

/// The address of the control block in a firmware file's bytes, if the file
/// names it.
pub fn rtt_symbol_address(data: &[u8]) -> (address: Result<Option<u64>, ElfError>)
    ensures
        address == match file_symbols(data@) {
            Ok(symbols) => Ok::<Option<u64>, ElfError>(control_block(symbols)),
            Err(e) => Err(ElfError::Parse(e)),
        },
{
    match symbols_of_file(data) {
        Ok(symbols) => Ok(rtt_symbol(&symbols)),
        Err(e) => Err(ElfError::Parse(e)),
    }
}

/// The control block is at the address of the first symbol that bears its name, as
/// that symbol gives it, and nowhere if no symbol does.
pub proof fn law_control_block_is_the_first_of_its_name(symbols: Seq<ElfSymbol>, k: int)
    requires
        0 <= k <= symbols.len(),
        forall|i: int|
            0 <= i < k ==> ((#[trigger] symbols[i]).name matches Some(name) ==> name@
                != "_SEGGER_RTT"@),
    ensures
        k == symbols.len() ==> control_block(views(symbols)) == None::<u64>,
        k < symbols.len() ==> (symbols[k].name matches Some(name) ==> (name@ == "_SEGGER_RTT"@
            ==> control_block(views(symbols)) == Some(symbols[k].address))),
    decreases symbols.len(),
{
    if symbols.len() > 0 && k > 0 {
        let rest = symbols.drop_first();
        assert forall|i: int| 0 <= i < k - 1 implies ((#[trigger] rest[i]).name matches Some(name)
            ==> name@ != "_SEGGER_RTT"@) by {
            assert(rest[i] == symbols[i + 1]);
        }
        law_control_block_is_the_first_of_its_name(rest, k - 1);
        assert(views(symbols).drop_first() =~= views(rest));
        assert(symbols[0].name matches Some(name) ==> name@ != "_SEGGER_RTT"@);
        if k < symbols.len() {
            assert(rest[k - 1] == symbols[k]);
        }
    }
}

/// Symbols of other names in front make no difference to where the control block is.
pub proof fn law_other_symbols_make_no_difference(symbols: Seq<ElfSymbol>, front: ElfSymbol)
    requires
        front.name matches Some(name) ==> name@ != "_SEGGER_RTT"@,
    ensures
        control_block(views(seq![front] + symbols)) == control_block(views(symbols)),
{
    assert(views(seq![front] + symbols).drop_first() =~= views(symbols));
}

} // verus!
