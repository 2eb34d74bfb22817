use vstd::prelude::*;

verus! {

/// Functions that a telegram of the VS2 protocol asks for.
#[derive(Debug, Clone, Copy, PartialEq, Eq, Structural)]
pub enum Function {
    VirtualRead,
    VirtualWrite,
    PhysicalRead,
    PhysicalWrite,
    EepromRead,
    EepromWrite,
    RemoteProcedureCall,
    VirtualMbus,
    VirtualMarketManagerRead,
    VirtualMarketManagerWrite,
    VirtualWiloRead,
    VirtualWiloWrite,
    XramRead,
    XramWrite,
    PortRead,
    PortWrite,
    BeRead,
    BeWrite,
    KmbusRamRead,
    KmbusEepromRead,
    KbusDataelementRead,
    KbusDataelementWrite,
    KbusDatablockRead,
    KbusDatablockWrite,
    KbusTransparentRead,
    KbusTransparentWrite,
    KbusInitializationRead,
    KbusInitializationWrite,
    KbusEepromLtRead,
    KbusEepromLtWrite,
    KbusControlWrite,
    KbusMemberlistRead,
    KbusMemberlistWrite,
    KbusVirtualRead,
    KbusVirtualWrite,
    KbusDirectRead,
    KbusDirectWrite,
    KbusIndirectRead,
    KbusIndirectWrite,
    KbusGatewayRead,
    KbusGatewayWrite,
    ProcessWrite,
    ProcessRead,
    OtPhysicalRead,
    OtVirtualRead,
    OtPhysicalWrite,
    OtVirtualWrite,
    GfaRead,
    GfaWrite,
}

/// The byte of a function in a telegram.
pub open spec fn function_code(f: Function) -> u8 {
    match f {
        Function::VirtualRead => 1,
        Function::VirtualWrite => 2,
        Function::PhysicalRead => 3,
        Function::PhysicalWrite => 4,
        Function::EepromRead => 5,
        Function::EepromWrite => 6,
        Function::RemoteProcedureCall => 7,
        Function::VirtualMbus => 33,
        Function::VirtualMarketManagerRead => 34,
        Function::VirtualMarketManagerWrite => 35,
        Function::VirtualWiloRead => 36,
        Function::VirtualWiloWrite => 37,
        Function::XramRead => 49,
        Function::XramWrite => 50,
        Function::PortRead => 51,
        Function::PortWrite => 52,
        Function::BeRead => 53,
        Function::BeWrite => 54,
        Function::KmbusRamRead => 65,
        Function::KmbusEepromRead => 67,
        Function::KbusDataelementRead => 81,
        Function::KbusDataelementWrite => 82,
        Function::KbusDatablockRead => 83,
        Function::KbusDatablockWrite => 84,
        Function::KbusTransparentRead => 85,
        Function::KbusTransparentWrite => 86,
        Function::KbusInitializationRead => 87,
        Function::KbusInitializationWrite => 88,
        Function::KbusEepromLtRead => 89,
        Function::KbusEepromLtWrite => 90,
        Function::KbusControlWrite => 91,
        Function::KbusMemberlistRead => 93,
        Function::KbusMemberlistWrite => 94,
        Function::KbusVirtualRead => 95,
        Function::KbusVirtualWrite => 96,
        Function::KbusDirectRead => 97,
        Function::KbusDirectWrite => 98,
        Function::KbusIndirectRead => 99,
        Function::KbusIndirectWrite => 100,
        Function::KbusGatewayRead => 101,
        Function::KbusGatewayWrite => 102,
        Function::ProcessWrite => 120,
        Function::ProcessRead => 123,
        Function::OtPhysicalRead => 180,
        Function::OtVirtualRead => 181,
        Function::OtPhysicalWrite => 182,
        Function::OtVirtualWrite => 183,
        Function::GfaRead => 201,
        Function::GfaWrite => 202,
    }
}

/// The function that a byte of a telegram names, if any.
pub open spec fn function_of_code(b: u8) -> Option<Function> {
    match b {
        1 => Some(Function::VirtualRead),
        2 => Some(Function::VirtualWrite),
        3 => Some(Function::PhysicalRead),
        4 => Some(Function::PhysicalWrite),
        5 => Some(Function::EepromRead),
        6 => Some(Function::EepromWrite),
        7 => Some(Function::RemoteProcedureCall),
        33 => Some(Function::VirtualMbus),
        34 => Some(Function::VirtualMarketManagerRead),
        35 => Some(Function::VirtualMarketManagerWrite),
        36 => Some(Function::VirtualWiloRead),
        37 => Some(Function::VirtualWiloWrite),
        49 => Some(Function::XramRead),
        50 => Some(Function::XramWrite),
        51 => Some(Function::PortRead),
        52 => Some(Function::PortWrite),
        53 => Some(Function::BeRead),
        54 => Some(Function::BeWrite),
        65 => Some(Function::KmbusRamRead),
        67 => Some(Function::KmbusEepromRead),
        81 => Some(Function::KbusDataelementRead),
        82 => Some(Function::KbusDataelementWrite),
        83 => Some(Function::KbusDatablockRead),
        84 => Some(Function::KbusDatablockWrite),
        85 => Some(Function::KbusTransparentRead),
        86 => Some(Function::KbusTransparentWrite),
        87 => Some(Function::KbusInitializationRead),
        88 => Some(Function::KbusInitializationWrite),
        89 => Some(Function::KbusEepromLtRead),
        90 => Some(Function::KbusEepromLtWrite),
        91 => Some(Function::KbusControlWrite),
        93 => Some(Function::KbusMemberlistRead),
        94 => Some(Function::KbusMemberlistWrite),
        95 => Some(Function::KbusVirtualRead),
        96 => Some(Function::KbusVirtualWrite),
        97 => Some(Function::KbusDirectRead),
        98 => Some(Function::KbusDirectWrite),
        99 => Some(Function::KbusIndirectRead),
        100 => Some(Function::KbusIndirectWrite),
        101 => Some(Function::KbusGatewayRead),
        102 => Some(Function::KbusGatewayWrite),
        120 => Some(Function::ProcessWrite),
        123 => Some(Function::ProcessRead),
        180 => Some(Function::OtPhysicalRead),
        181 => Some(Function::OtVirtualRead),
        182 => Some(Function::OtPhysicalWrite),
        183 => Some(Function::OtVirtualWrite),
        201 => Some(Function::GfaRead),
        202 => Some(Function::GfaWrite),
        _ => None,
    }
}

impl Function {
    /// The byte of the function.
    pub fn code(self) -> (res: u8)
        ensures
            res == function_code(self),
    {
        match self {
            Function::VirtualRead => 1,
            Function::VirtualWrite => 2,
            Function::PhysicalRead => 3,
            Function::PhysicalWrite => 4,
            Function::EepromRead => 5,
            Function::EepromWrite => 6,
            Function::RemoteProcedureCall => 7,
            Function::VirtualMbus => 33,
            Function::VirtualMarketManagerRead => 34,
            Function::VirtualMarketManagerWrite => 35,
            Function::VirtualWiloRead => 36,
            Function::VirtualWiloWrite => 37,
            Function::XramRead => 49,
            Function::XramWrite => 50,
            Function::PortRead => 51,
            Function::PortWrite => 52,
            Function::BeRead => 53,
            Function::BeWrite => 54,
            Function::KmbusRamRead => 65,
            Function::KmbusEepromRead => 67,
            Function::KbusDataelementRead => 81,
            Function::KbusDataelementWrite => 82,
            Function::KbusDatablockRead => 83,
            Function::KbusDatablockWrite => 84,
            Function::KbusTransparentRead => 85,
            Function::KbusTransparentWrite => 86,
            Function::KbusInitializationRead => 87,
            Function::KbusInitializationWrite => 88,
            Function::KbusEepromLtRead => 89,
            Function::KbusEepromLtWrite => 90,
            Function::KbusControlWrite => 91,
            Function::KbusMemberlistRead => 93,
            Function::KbusMemberlistWrite => 94,
            Function::KbusVirtualRead => 95,
            Function::KbusVirtualWrite => 96,
            Function::KbusDirectRead => 97,
            Function::KbusDirectWrite => 98,
            Function::KbusIndirectRead => 99,
            Function::KbusIndirectWrite => 100,
            Function::KbusGatewayRead => 101,
            Function::KbusGatewayWrite => 102,
            Function::ProcessWrite => 120,
            Function::ProcessRead => 123,
            Function::OtPhysicalRead => 180,
            Function::OtVirtualRead => 181,
            Function::OtPhysicalWrite => 182,
            Function::OtVirtualWrite => 183,
            Function::GfaRead => 201,
            Function::GfaWrite => 202,
        }
    }

    /// The function that a byte names, if any.
    pub fn from_code(b: u8) -> (res: Option<Self>)
        ensures
            res == function_of_code(b),
    {
        match b {
            1 => Some(Function::VirtualRead),
            2 => Some(Function::VirtualWrite),
            3 => Some(Function::PhysicalRead),
            4 => Some(Function::PhysicalWrite),
            5 => Some(Function::EepromRead),
            6 => Some(Function::EepromWrite),
            7 => Some(Function::RemoteProcedureCall),
            33 => Some(Function::VirtualMbus),
            34 => Some(Function::VirtualMarketManagerRead),
            35 => Some(Function::VirtualMarketManagerWrite),
            36 => Some(Function::VirtualWiloRead),
            37 => Some(Function::VirtualWiloWrite),
            49 => Some(Function::XramRead),
            50 => Some(Function::XramWrite),
            51 => Some(Function::PortRead),
            52 => Some(Function::PortWrite),
            53 => Some(Function::BeRead),
            54 => Some(Function::BeWrite),
            65 => Some(Function::KmbusRamRead),
            67 => Some(Function::KmbusEepromRead),
            81 => Some(Function::KbusDataelementRead),
            82 => Some(Function::KbusDataelementWrite),
            83 => Some(Function::KbusDatablockRead),
            84 => Some(Function::KbusDatablockWrite),
            85 => Some(Function::KbusTransparentRead),
            86 => Some(Function::KbusTransparentWrite),
            87 => Some(Function::KbusInitializationRead),
            88 => Some(Function::KbusInitializationWrite),
            89 => Some(Function::KbusEepromLtRead),
            90 => Some(Function::KbusEepromLtWrite),
            91 => Some(Function::KbusControlWrite),
            93 => Some(Function::KbusMemberlistRead),
            94 => Some(Function::KbusMemberlistWrite),
            95 => Some(Function::KbusVirtualRead),
            96 => Some(Function::KbusVirtualWrite),
            97 => Some(Function::KbusDirectRead),
            98 => Some(Function::KbusDirectWrite),
            99 => Some(Function::KbusIndirectRead),
            100 => Some(Function::KbusIndirectWrite),
            101 => Some(Function::KbusGatewayRead),
            102 => Some(Function::KbusGatewayWrite),
            120 => Some(Function::ProcessWrite),
            123 => Some(Function::ProcessRead),
            180 => Some(Function::OtPhysicalRead),
            181 => Some(Function::OtVirtualRead),
            182 => Some(Function::OtPhysicalWrite),
            183 => Some(Function::OtVirtualWrite),
            201 => Some(Function::GfaRead),
            202 => Some(Function::GfaWrite),
            _ => None,
        }
    }
}

/// Each function is named by its byte.
pub proof fn lemma_function_code_roundtrip(f: Function)
    ensures
        function_of_code(function_code(f)) == Some(f),
{
}

/// A byte that names a function is the byte of that function.
pub proof fn lemma_function_of_code(b: u8)
    ensures
        function_of_code(b) matches Some(f) ==> function_code(f) == b,
{
}

} // verus!
