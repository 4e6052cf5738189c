use vstd::prelude::*;

verus! {

/// The category of an entity, one variant per kind the C/C++ front end reports.
#[derive(Clone, Copy, Debug, PartialEq, Eq, Structural)]
pub enum EntityKind {
    UnexposedDecl,
    StructDecl,
    UnionDecl,
    ClassDecl,
    EnumDecl,
    FieldDecl,
    EnumConstantDecl,
    FunctionDecl,
    VarDecl,
    ParmDecl,
    ObjCInterfaceDecl,
    ObjCCategoryDecl,
    ObjCProtocolDecl,
    ObjCPropertyDecl,
    ObjCIvarDecl,
    ObjCInstanceMethodDecl,
    ObjCClassMethodDecl,
    ObjCImplementationDecl,
    ObjCCategoryImplDecl,
    TypedefDecl,
    Method,
    Namespace,
    LinkageSpec,
    Constructor,
    Destructor,
    ConversionFunction,
    TemplateTypeParameter,
    NonTypeTemplateParameter,
    TemplateTemplateParameter,
    FunctionTemplate,
    ClassTemplate,
    ClassTemplatePartialSpecialization,
    NamespaceAlias,
    UsingDirective,
    UsingDeclaration,
    TypeAliasDecl,
    ObjCSynthesizeDecl,
    ObjCDynamicDecl,
    AccessSpecifier,
    ObjCSuperClassRef,
    ObjCProtocolRef,
    ObjCClassRef,
    TypeRef,
    BaseSpecifier,
    TemplateRef,
    NamespaceRef,
    MemberRef,
    LabelRef,
    OverloadedDeclRef,
    VariableRef,
    InvalidFile,
    InvalidDecl,
    NotImplemented,
    InvalidCode,
    UnexposedExpr,
    DeclRefExpr,
    MemberRefExpr,
    CallExpr,
    ObjCMessageExpr,
    BlockExpr,
    IntegerLiteral,
    FloatingLiteral,
    ImaginaryLiteral,
    StringLiteral,
    CharacterLiteral,
    ParenExpr,
    UnaryOperator,
    ArraySubscriptExpr,
    BinaryOperator,
    CompoundAssignOperator,
    ConditionalOperator,
    CStyleCastExpr,
    CompoundLiteralExpr,
    InitListExpr,
    AddrLabelExpr,
    StmtExpr,
    GenericSelectionExpr,
    GNUNullExpr,
    StaticCastExpr,
    DynamicCastExpr,
    ReinterpretCastExpr,
    ConstCastExpr,
    FunctionalCastExpr,
    TypeidExpr,
    BoolLiteralExpr,
    NullPtrLiteralExpr,
    ThisExpr,
    ThrowExpr,
    NewExpr,
    DeleteExpr,
    UnaryExpr,
    ObjCStringLiteral,
    ObjCEncodeExpr,
    ObjCSelectorExpr,
    ObjCProtocolExpr,
    ObjCBridgedCastExpr,
    PackExpansionExpr,
    SizeOfPackExpr,
    LambdaExpr,
    ObjCBoolLiteralExpr,
    ObjCSelfExpr,
    OmpArraySectionExpr,
    ObjCAvailabilityCheckExpr,
    FixedPointLiteral,
    UnexposedStmt,
    LabelStmt,
    CompoundStmt,
    CaseStmt,
    DefaultStmt,
    IfStmt,
    SwitchStmt,
    WhileStmt,
    DoStmt,
    ForStmt,
    GotoStmt,
    IndirectGotoStmt,
    ContinueStmt,
    BreakStmt,
    ReturnStmt,
    AsmStmt,
    ObjCAtTryStmt,
    ObjCAtCatchStmt,
    ObjCAtFinallyStmt,
    ObjCAtThrowStmt,
    ObjCAtSynchronizedStmt,
    ObjCAutoreleasePoolStmt,
    ObjCForCollectionStmt,
    CatchStmt,
    TryStmt,
    ForRangeStmt,
    SehTryStmt,
    SehExceptStmt,
    SehFinallyStmt,
    SehLeaveStmt,
    MsAsmStmt,
    NullStmt,
    DeclStmt,
    OmpParallelDirective,
    OmpSimdDirective,
    OmpForDirective,
    OmpSectionsDirective,
    OmpSectionDirective,
    OmpSingleDirective,
    OmpParallelForDirective,
    OmpParallelSectionsDirective,
    OmpTaskDirective,
    OmpMasterDirective,
    OmpCriticalDirective,
    OmpTaskyieldDirective,
    OmpBarrierDirective,
    OmpTaskwaitDirective,
    OmpFlushDirective,
    OmpOrderedDirective,
    OmpAtomicDirective,
    OmpForSimdDirective,
    OmpParallelForSimdDirective,
    OmpTargetDirective,
    OmpTeamsDirective,
    OmpTaskgroupDirective,
    OmpCancellationPointDirective,
    OmpCancelDirective,
    OmpTargetDataDirective,
    OmpTaskLoopDirective,
    OmpTaskLoopSimdDirective,
    OmpDistributeDirective,
    OmpTargetEnterDataDirective,
    OmpTargetExitDataDirective,
    OmpTargetParallelDirective,
    OmpTargetParallelForDirective,
    OmpTargetUpdateDirective,
    OmpDistributeParallelForDirective,
    OmpDistributeParallelForSimdDirective,
    OmpDistributeSimdDirective,
    OmpTargetParallelForSimdDirective,
    OmpTargetSimdDirective,
    OmpTeamsDistributeDirective,
    OmpTeamsDistributeSimdDirective,
    OmpTeamsDistributeParallelForSimdDirective,
    OmpTeamsDistributeParallelForDirective,
    OmpTargetTeamsDirective,
    OmpTargetTeamsDistributeDirective,
    OmpTargetTeamsDistributeParallelForDirective,
    OmpTargetTeamsDistributeParallelForSimdDirective,
    OmpTargetTeamsDistributeSimdDirective,
    BitCastExpr,
    OmpMasterTaskLoopDirective,
    OmpParallelMasterTaskLoopDirective,
    OmpMasterTaskLoopSimdDirective,
    OmpParallelMasterTaskLoopSimdDirective,
    OmpParallelMasterDirective,
    TranslationUnit,
    UnexposedAttr,
    IbActionAttr,
    IbOutletAttr,
    IbOutletCollectionAttr,
    FinalAttr,
    OverrideAttr,
    AnnotateAttr,
    AsmLabelAttr,
    PackedAttr,
    PureAttr,
    ConstAttr,
    NoDuplicateAttr,
    CudaConstantAttr,
    CudaDeviceAttr,
    CudaGlobalAttr,
    CudaHostAttr,
    CudaSharedAttr,
    VisibilityAttr,
    DllExport,
    DllImport,
    NSReturnsRetained,
    NSReturnsNotRetained,
    NSReturnsAutoreleased,
    NSConsumesSelf,
    NSConsumed,
    ObjCException,
    ObjCNSObject,
    ObjCIndependentClass,
    ObjCPreciseLifetime,
    ObjCReturnsInnerPointer,
    ObjCRequiresSuper,
    ObjCRootClass,
    ObjCSubclassingRestricted,
    ObjCExplicitProtocolImpl,
    ObjCDesignatedInitializer,
    ObjCRuntimeVisible,
    ObjCBoxable,
    FlagEnum,
    ConvergentAttr,
    WarnUnusedAttr,
    WarnUnusedResultAttr,
    AlignedAttr,
    PreprocessingDirective,
    MacroDefinition,
    MacroExpansion,
    InclusionDirective,
    ModuleImportDecl,
    TypeAliasTemplateDecl,
    StaticAssert,
    FriendDecl,
    OverloadCandidate,
}

/// The label written for each kind: the variant's own name.
pub open spec fn kind_name(k: EntityKind) -> Seq<char> {
    match k {
        EntityKind::UnexposedDecl => "UnexposedDecl"@,
        EntityKind::StructDecl => "StructDecl"@,
        EntityKind::UnionDecl => "UnionDecl"@,
        EntityKind::ClassDecl => "ClassDecl"@,
        EntityKind::EnumDecl => "EnumDecl"@,
        EntityKind::FieldDecl => "FieldDecl"@,
        EntityKind::EnumConstantDecl => "EnumConstantDecl"@,
        EntityKind::FunctionDecl => "FunctionDecl"@,
        EntityKind::VarDecl => "VarDecl"@,
        EntityKind::ParmDecl => "ParmDecl"@,
        EntityKind::ObjCInterfaceDecl => "ObjCInterfaceDecl"@,
        EntityKind::ObjCCategoryDecl => "ObjCCategoryDecl"@,
        EntityKind::ObjCProtocolDecl => "ObjCProtocolDecl"@,
        EntityKind::ObjCPropertyDecl => "ObjCPropertyDecl"@,
        EntityKind::ObjCIvarDecl => "ObjCIvarDecl"@,
        EntityKind::ObjCInstanceMethodDecl => "ObjCInstanceMethodDecl"@,
        EntityKind::ObjCClassMethodDecl => "ObjCClassMethodDecl"@,
        EntityKind::ObjCImplementationDecl => "ObjCImplementationDecl"@,
        EntityKind::ObjCCategoryImplDecl => "ObjCCategoryImplDecl"@,
        EntityKind::TypedefDecl => "TypedefDecl"@,
        EntityKind::Method => "Method"@,
        EntityKind::Namespace => "Namespace"@,
        EntityKind::LinkageSpec => "LinkageSpec"@,
        EntityKind::Constructor => "Constructor"@,
        EntityKind::Destructor => "Destructor"@,
        EntityKind::ConversionFunction => "ConversionFunction"@,
        EntityKind::TemplateTypeParameter => "TemplateTypeParameter"@,
        EntityKind::NonTypeTemplateParameter => "NonTypeTemplateParameter"@,
        EntityKind::TemplateTemplateParameter => "TemplateTemplateParameter"@,
        EntityKind::FunctionTemplate => "FunctionTemplate"@,
        EntityKind::ClassTemplate => "ClassTemplate"@,
        EntityKind::ClassTemplatePartialSpecialization => "ClassTemplatePartialSpecialization"@,
        EntityKind::NamespaceAlias => "NamespaceAlias"@,
        EntityKind::UsingDirective => "UsingDirective"@,
        EntityKind::UsingDeclaration => "UsingDeclaration"@,
        EntityKind::TypeAliasDecl => "TypeAliasDecl"@,
        EntityKind::ObjCSynthesizeDecl => "ObjCSynthesizeDecl"@,
        EntityKind::ObjCDynamicDecl => "ObjCDynamicDecl"@,
        EntityKind::AccessSpecifier => "AccessSpecifier"@,
        EntityKind::ObjCSuperClassRef => "ObjCSuperClassRef"@,
        EntityKind::ObjCProtocolRef => "ObjCProtocolRef"@,
        EntityKind::ObjCClassRef => "ObjCClassRef"@,
        EntityKind::TypeRef => "TypeRef"@,
        EntityKind::BaseSpecifier => "BaseSpecifier"@,
        EntityKind::TemplateRef => "TemplateRef"@,
        EntityKind::NamespaceRef => "NamespaceRef"@,
        EntityKind::MemberRef => "MemberRef"@,
        EntityKind::LabelRef => "LabelRef"@,
        EntityKind::OverloadedDeclRef => "OverloadedDeclRef"@,
        EntityKind::VariableRef => "VariableRef"@,
        EntityKind::InvalidFile => "InvalidFile"@,
        EntityKind::InvalidDecl => "InvalidDecl"@,
        EntityKind::NotImplemented => "NotImplemented"@,
        EntityKind::InvalidCode => "InvalidCode"@,
        EntityKind::UnexposedExpr => "UnexposedExpr"@,
        EntityKind::DeclRefExpr => "DeclRefExpr"@,
        EntityKind::MemberRefExpr => "MemberRefExpr"@,
        EntityKind::CallExpr => "CallExpr"@,
        EntityKind::ObjCMessageExpr => "ObjCMessageExpr"@,
        EntityKind::BlockExpr => "BlockExpr"@,
        EntityKind::IntegerLiteral => "IntegerLiteral"@,
        EntityKind::FloatingLiteral => "FloatingLiteral"@,
        EntityKind::ImaginaryLiteral => "ImaginaryLiteral"@,
        EntityKind::StringLiteral => "StringLiteral"@,
        EntityKind::CharacterLiteral => "CharacterLiteral"@,
        EntityKind::ParenExpr => "ParenExpr"@,
        EntityKind::UnaryOperator => "UnaryOperator"@,
        EntityKind::ArraySubscriptExpr => "ArraySubscriptExpr"@,
        EntityKind::BinaryOperator => "BinaryOperator"@,
        EntityKind::CompoundAssignOperator => "CompoundAssignOperator"@,
        EntityKind::ConditionalOperator => "ConditionalOperator"@,
        EntityKind::CStyleCastExpr => "CStyleCastExpr"@,
        EntityKind::CompoundLiteralExpr => "CompoundLiteralExpr"@,
        EntityKind::InitListExpr => "InitListExpr"@,
        EntityKind::AddrLabelExpr => "AddrLabelExpr"@,
        EntityKind::StmtExpr => "StmtExpr"@,
        EntityKind::GenericSelectionExpr => "GenericSelectionExpr"@,
        EntityKind::GNUNullExpr => "GNUNullExpr"@,
        EntityKind::StaticCastExpr => "StaticCastExpr"@,
        EntityKind::DynamicCastExpr => "DynamicCastExpr"@,
        EntityKind::ReinterpretCastExpr => "ReinterpretCastExpr"@,
        EntityKind::ConstCastExpr => "ConstCastExpr"@,
        EntityKind::FunctionalCastExpr => "FunctionalCastExpr"@,
        EntityKind::TypeidExpr => "TypeidExpr"@,
        EntityKind::BoolLiteralExpr => "BoolLiteralExpr"@,
        EntityKind::NullPtrLiteralExpr => "NullPtrLiteralExpr"@,
        EntityKind::ThisExpr => "ThisExpr"@,
        EntityKind::ThrowExpr => "ThrowExpr"@,
        EntityKind::NewExpr => "NewExpr"@,
        EntityKind::DeleteExpr => "DeleteExpr"@,
        EntityKind::UnaryExpr => "UnaryExpr"@,
        EntityKind::ObjCStringLiteral => "ObjCStringLiteral"@,
        EntityKind::ObjCEncodeExpr => "ObjCEncodeExpr"@,
        EntityKind::ObjCSelectorExpr => "ObjCSelectorExpr"@,
        EntityKind::ObjCProtocolExpr => "ObjCProtocolExpr"@,
        EntityKind::ObjCBridgedCastExpr => "ObjCBridgedCastExpr"@,
        EntityKind::PackExpansionExpr => "PackExpansionExpr"@,
        EntityKind::SizeOfPackExpr => "SizeOfPackExpr"@,
        EntityKind::LambdaExpr => "LambdaExpr"@,
        EntityKind::ObjCBoolLiteralExpr => "ObjCBoolLiteralExpr"@,
        EntityKind::ObjCSelfExpr => "ObjCSelfExpr"@,
        EntityKind::OmpArraySectionExpr => "OmpArraySectionExpr"@,
        EntityKind::ObjCAvailabilityCheckExpr => "ObjCAvailabilityCheckExpr"@,
        EntityKind::FixedPointLiteral => "FixedPointLiteral"@,
        EntityKind::UnexposedStmt => "UnexposedStmt"@,
        EntityKind::LabelStmt => "LabelStmt"@,
        EntityKind::CompoundStmt => "CompoundStmt"@,
        EntityKind::CaseStmt => "CaseStmt"@,
        EntityKind::DefaultStmt => "DefaultStmt"@,
        EntityKind::IfStmt => "IfStmt"@,
        EntityKind::SwitchStmt => "SwitchStmt"@,
        EntityKind::WhileStmt => "WhileStmt"@,
        EntityKind::DoStmt => "DoStmt"@,
        EntityKind::ForStmt => "ForStmt"@,
        EntityKind::GotoStmt => "GotoStmt"@,
        EntityKind::IndirectGotoStmt => "IndirectGotoStmt"@,
        EntityKind::ContinueStmt => "ContinueStmt"@,
        EntityKind::BreakStmt => "BreakStmt"@,
        EntityKind::ReturnStmt => "ReturnStmt"@,
        EntityKind::AsmStmt => "AsmStmt"@,
        EntityKind::ObjCAtTryStmt => "ObjCAtTryStmt"@,
        EntityKind::ObjCAtCatchStmt => "ObjCAtCatchStmt"@,
        EntityKind::ObjCAtFinallyStmt => "ObjCAtFinallyStmt"@,
        EntityKind::ObjCAtThrowStmt => "ObjCAtThrowStmt"@,
        EntityKind::ObjCAtSynchronizedStmt => "ObjCAtSynchronizedStmt"@,
        EntityKind::ObjCAutoreleasePoolStmt => "ObjCAutoreleasePoolStmt"@,
        EntityKind::ObjCForCollectionStmt => "ObjCForCollectionStmt"@,
        EntityKind::CatchStmt => "CatchStmt"@,
        EntityKind::TryStmt => "TryStmt"@,
        EntityKind::ForRangeStmt => "ForRangeStmt"@,
        EntityKind::SehTryStmt => "SehTryStmt"@,
        EntityKind::SehExceptStmt => "SehExceptStmt"@,
        EntityKind::SehFinallyStmt => "SehFinallyStmt"@,
        EntityKind::SehLeaveStmt => "SehLeaveStmt"@,
        EntityKind::MsAsmStmt => "MsAsmStmt"@,
        EntityKind::NullStmt => "NullStmt"@,
        EntityKind::DeclStmt => "DeclStmt"@,
        EntityKind::OmpParallelDirective => "OmpParallelDirective"@,
        EntityKind::OmpSimdDirective => "OmpSimdDirective"@,
        EntityKind::OmpForDirective => "OmpForDirective"@,
        EntityKind::OmpSectionsDirective => "OmpSectionsDirective"@,
        EntityKind::OmpSectionDirective => "OmpSectionDirective"@,
        EntityKind::OmpSingleDirective => "OmpSingleDirective"@,
        EntityKind::OmpParallelForDirective => "OmpParallelForDirective"@,
        EntityKind::OmpParallelSectionsDirective => "OmpParallelSectionsDirective"@,
        EntityKind::OmpTaskDirective => "OmpTaskDirective"@,
        EntityKind::OmpMasterDirective => "OmpMasterDirective"@,
        EntityKind::OmpCriticalDirective => "OmpCriticalDirective"@,
        EntityKind::OmpTaskyieldDirective => "OmpTaskyieldDirective"@,
        EntityKind::OmpBarrierDirective => "OmpBarrierDirective"@,
        EntityKind::OmpTaskwaitDirective => "OmpTaskwaitDirective"@,
        EntityKind::OmpFlushDirective => "OmpFlushDirective"@,
        EntityKind::OmpOrderedDirective => "OmpOrderedDirective"@,
        EntityKind::OmpAtomicDirective => "OmpAtomicDirective"@,
        EntityKind::OmpForSimdDirective => "OmpForSimdDirective"@,
        EntityKind::OmpParallelForSimdDirective => "OmpParallelForSimdDirective"@,
        EntityKind::OmpTargetDirective => "OmpTargetDirective"@,
        EntityKind::OmpTeamsDirective => "OmpTeamsDirective"@,
        EntityKind::OmpTaskgroupDirective => "OmpTaskgroupDirective"@,
        EntityKind::OmpCancellationPointDirective => "OmpCancellationPointDirective"@,
        EntityKind::OmpCancelDirective => "OmpCancelDirective"@,
        EntityKind::OmpTargetDataDirective => "OmpTargetDataDirective"@,
        EntityKind::OmpTaskLoopDirective => "OmpTaskLoopDirective"@,
        EntityKind::OmpTaskLoopSimdDirective => "OmpTaskLoopSimdDirective"@,
        EntityKind::OmpDistributeDirective => "OmpDistributeDirective"@,
        EntityKind::OmpTargetEnterDataDirective => "OmpTargetEnterDataDirective"@,
        EntityKind::OmpTargetExitDataDirective => "OmpTargetExitDataDirective"@,
        EntityKind::OmpTargetParallelDirective => "OmpTargetParallelDirective"@,
        EntityKind::OmpTargetParallelForDirective => "OmpTargetParallelForDirective"@,
        EntityKind::OmpTargetUpdateDirective => "OmpTargetUpdateDirective"@,
        EntityKind::OmpDistributeParallelForDirective => "OmpDistributeParallelForDirective"@,
        EntityKind::OmpDistributeParallelForSimdDirective => "OmpDistributeParallelForSimdDirective"@,
        EntityKind::OmpDistributeSimdDirective => "OmpDistributeSimdDirective"@,
        EntityKind::OmpTargetParallelForSimdDirective => "OmpTargetParallelForSimdDirective"@,
        EntityKind::OmpTargetSimdDirective => "OmpTargetSimdDirective"@,
        EntityKind::OmpTeamsDistributeDirective => "OmpTeamsDistributeDirective"@,
        EntityKind::OmpTeamsDistributeSimdDirective => "OmpTeamsDistributeSimdDirective"@,
        EntityKind::OmpTeamsDistributeParallelForSimdDirective => "OmpTeamsDistributeParallelForSimdDirective"@,
        EntityKind::OmpTeamsDistributeParallelForDirective => "OmpTeamsDistributeParallelForDirective"@,
        EntityKind::OmpTargetTeamsDirective => "OmpTargetTeamsDirective"@,
        EntityKind::OmpTargetTeamsDistributeDirective => "OmpTargetTeamsDistributeDirective"@,
        EntityKind::OmpTargetTeamsDistributeParallelForDirective => "OmpTargetTeamsDistributeParallelForDirective"@,
        EntityKind::OmpTargetTeamsDistributeParallelForSimdDirective => "OmpTargetTeamsDistributeParallelForSimdDirective"@,
        EntityKind::OmpTargetTeamsDistributeSimdDirective => "OmpTargetTeamsDistributeSimdDirective"@,
        EntityKind::BitCastExpr => "BitCastExpr"@,
        EntityKind::OmpMasterTaskLoopDirective => "OmpMasterTaskLoopDirective"@,
        EntityKind::OmpParallelMasterTaskLoopDirective => "OmpParallelMasterTaskLoopDirective"@,
        EntityKind::OmpMasterTaskLoopSimdDirective => "OmpMasterTaskLoopSimdDirective"@,
        EntityKind::OmpParallelMasterTaskLoopSimdDirective => "OmpParallelMasterTaskLoopSimdDirective"@,
        EntityKind::OmpParallelMasterDirective => "OmpParallelMasterDirective"@,
        EntityKind::TranslationUnit => "TranslationUnit"@,
        EntityKind::UnexposedAttr => "UnexposedAttr"@,
        EntityKind::IbActionAttr => "IbActionAttr"@,
        EntityKind::IbOutletAttr => "IbOutletAttr"@,
        EntityKind::IbOutletCollectionAttr => "IbOutletCollectionAttr"@,
        EntityKind::FinalAttr => "FinalAttr"@,
        EntityKind::OverrideAttr => "OverrideAttr"@,
        EntityKind::AnnotateAttr => "AnnotateAttr"@,
        EntityKind::AsmLabelAttr => "AsmLabelAttr"@,
        EntityKind::PackedAttr => "PackedAttr"@,
        EntityKind::PureAttr => "PureAttr"@,
        EntityKind::ConstAttr => "ConstAttr"@,
        EntityKind::NoDuplicateAttr => "NoDuplicateAttr"@,
        EntityKind::CudaConstantAttr => "CudaConstantAttr"@,
        EntityKind::CudaDeviceAttr => "CudaDeviceAttr"@,
        EntityKind::CudaGlobalAttr => "CudaGlobalAttr"@,
        EntityKind::CudaHostAttr => "CudaHostAttr"@,
        EntityKind::CudaSharedAttr => "CudaSharedAttr"@,
        EntityKind::VisibilityAttr => "VisibilityAttr"@,
        EntityKind::DllExport => "DllExport"@,
        EntityKind::DllImport => "DllImport"@,
        EntityKind::NSReturnsRetained => "NSReturnsRetained"@,
        EntityKind::NSReturnsNotRetained => "NSReturnsNotRetained"@,
        EntityKind::NSReturnsAutoreleased => "NSReturnsAutoreleased"@,
        EntityKind::NSConsumesSelf => "NSConsumesSelf"@,
        EntityKind::NSConsumed => "NSConsumed"@,
        EntityKind::ObjCException => "ObjCException"@,
        EntityKind::ObjCNSObject => "ObjCNSObject"@,
        EntityKind::ObjCIndependentClass => "ObjCIndependentClass"@,
        EntityKind::ObjCPreciseLifetime => "ObjCPreciseLifetime"@,
        EntityKind::ObjCReturnsInnerPointer => "ObjCReturnsInnerPointer"@,
        EntityKind::ObjCRequiresSuper => "ObjCRequiresSuper"@,
        EntityKind::ObjCRootClass => "ObjCRootClass"@,
        EntityKind::ObjCSubclassingRestricted => "ObjCSubclassingRestricted"@,
        EntityKind::ObjCExplicitProtocolImpl => "ObjCExplicitProtocolImpl"@,
        EntityKind::ObjCDesignatedInitializer => "ObjCDesignatedInitializer"@,
        EntityKind::ObjCRuntimeVisible => "ObjCRuntimeVisible"@,
        EntityKind::ObjCBoxable => "ObjCBoxable"@,
        EntityKind::FlagEnum => "FlagEnum"@,
        EntityKind::ConvergentAttr => "ConvergentAttr"@,
        EntityKind::WarnUnusedAttr => "WarnUnusedAttr"@,
        EntityKind::WarnUnusedResultAttr => "WarnUnusedResultAttr"@,
        EntityKind::AlignedAttr => "AlignedAttr"@,
        EntityKind::PreprocessingDirective => "PreprocessingDirective"@,
        EntityKind::MacroDefinition => "MacroDefinition"@,
        EntityKind::MacroExpansion => "MacroExpansion"@,
        EntityKind::InclusionDirective => "InclusionDirective"@,
        EntityKind::ModuleImportDecl => "ModuleImportDecl"@,
        EntityKind::TypeAliasTemplateDecl => "TypeAliasTemplateDecl"@,
        EntityKind::StaticAssert => "StaticAssert"@,
        EntityKind::FriendDecl => "FriendDecl"@,
        EntityKind::OverloadCandidate => "OverloadCandidate"@,
    }
}

/// The label of `k` as it appears in the output.
pub fn get_kind_label(k: EntityKind) -> (r: &'static str)
    ensures
        r@ == kind_name(k),
{
    match k {
        EntityKind::UnexposedDecl => "UnexposedDecl",
        EntityKind::StructDecl => "StructDecl",
        EntityKind::UnionDecl => "UnionDecl",
        EntityKind::ClassDecl => "ClassDecl",
        EntityKind::EnumDecl => "EnumDecl",
        EntityKind::FieldDecl => "FieldDecl",
        EntityKind::EnumConstantDecl => "EnumConstantDecl",
        EntityKind::FunctionDecl => "FunctionDecl",
        EntityKind::VarDecl => "VarDecl",
        EntityKind::ParmDecl => "ParmDecl",
        EntityKind::ObjCInterfaceDecl => "ObjCInterfaceDecl",
        EntityKind::ObjCCategoryDecl => "ObjCCategoryDecl",
        EntityKind::ObjCProtocolDecl => "ObjCProtocolDecl",
        EntityKind::ObjCPropertyDecl => "ObjCPropertyDecl",
        EntityKind::ObjCIvarDecl => "ObjCIvarDecl",
        EntityKind::ObjCInstanceMethodDecl => "ObjCInstanceMethodDecl",
        EntityKind::ObjCClassMethodDecl => "ObjCClassMethodDecl",
        EntityKind::ObjCImplementationDecl => "ObjCImplementationDecl",
        EntityKind::ObjCCategoryImplDecl => "ObjCCategoryImplDecl",
        EntityKind::TypedefDecl => "TypedefDecl",
        EntityKind::Method => "Method",
        EntityKind::Namespace => "Namespace",
        EntityKind::LinkageSpec => "LinkageSpec",
        EntityKind::Constructor => "Constructor",
        EntityKind::Destructor => "Destructor",
        EntityKind::ConversionFunction => "ConversionFunction",
        EntityKind::TemplateTypeParameter => "TemplateTypeParameter",
        EntityKind::NonTypeTemplateParameter => "NonTypeTemplateParameter",
        EntityKind::TemplateTemplateParameter => "TemplateTemplateParameter",
        EntityKind::FunctionTemplate => "FunctionTemplate",
        EntityKind::ClassTemplate => "ClassTemplate",
        EntityKind::ClassTemplatePartialSpecialization => "ClassTemplatePartialSpecialization",
        EntityKind::NamespaceAlias => "NamespaceAlias",
        EntityKind::UsingDirective => "UsingDirective",
        EntityKind::UsingDeclaration => "UsingDeclaration",
        EntityKind::TypeAliasDecl => "TypeAliasDecl",
        EntityKind::ObjCSynthesizeDecl => "ObjCSynthesizeDecl",
        EntityKind::ObjCDynamicDecl => "ObjCDynamicDecl",
        EntityKind::AccessSpecifier => "AccessSpecifier",
        EntityKind::ObjCSuperClassRef => "ObjCSuperClassRef",
        EntityKind::ObjCProtocolRef => "ObjCProtocolRef",
        EntityKind::ObjCClassRef => "ObjCClassRef",
        EntityKind::TypeRef => "TypeRef",
        EntityKind::BaseSpecifier => "BaseSpecifier",
        EntityKind::TemplateRef => "TemplateRef",
        EntityKind::NamespaceRef => "NamespaceRef",
        EntityKind::MemberRef => "MemberRef",
        EntityKind::LabelRef => "LabelRef",
        EntityKind::OverloadedDeclRef => "OverloadedDeclRef",
        EntityKind::VariableRef => "VariableRef",
        EntityKind::InvalidFile => "InvalidFile",
        EntityKind::InvalidDecl => "InvalidDecl",
        EntityKind::NotImplemented => "NotImplemented",
        EntityKind::InvalidCode => "InvalidCode",
        EntityKind::UnexposedExpr => "UnexposedExpr",
        EntityKind::DeclRefExpr => "DeclRefExpr",
        EntityKind::MemberRefExpr => "MemberRefExpr",
        EntityKind::CallExpr => "CallExpr",
        EntityKind::ObjCMessageExpr => "ObjCMessageExpr",
        EntityKind::BlockExpr => "BlockExpr",
        EntityKind::IntegerLiteral => "IntegerLiteral",
        EntityKind::FloatingLiteral => "FloatingLiteral",
        EntityKind::ImaginaryLiteral => "ImaginaryLiteral",
        EntityKind::StringLiteral => "StringLiteral",
        EntityKind::CharacterLiteral => "CharacterLiteral",
        EntityKind::ParenExpr => "ParenExpr",
        EntityKind::UnaryOperator => "UnaryOperator",
        EntityKind::ArraySubscriptExpr => "ArraySubscriptExpr",
        EntityKind::BinaryOperator => "BinaryOperator",
        EntityKind::CompoundAssignOperator => "CompoundAssignOperator",
        EntityKind::ConditionalOperator => "ConditionalOperator",
        EntityKind::CStyleCastExpr => "CStyleCastExpr",
        EntityKind::CompoundLiteralExpr => "CompoundLiteralExpr",
        EntityKind::InitListExpr => "InitListExpr",
        EntityKind::AddrLabelExpr => "AddrLabelExpr",
        EntityKind::StmtExpr => "StmtExpr",
        EntityKind::GenericSelectionExpr => "GenericSelectionExpr",
        EntityKind::GNUNullExpr => "GNUNullExpr",
        EntityKind::StaticCastExpr => "StaticCastExpr",
        EntityKind::DynamicCastExpr => "DynamicCastExpr",
        EntityKind::ReinterpretCastExpr => "ReinterpretCastExpr",
        EntityKind::ConstCastExpr => "ConstCastExpr",
        EntityKind::FunctionalCastExpr => "FunctionalCastExpr",
        EntityKind::TypeidExpr => "TypeidExpr",
        EntityKind::BoolLiteralExpr => "BoolLiteralExpr",
        EntityKind::NullPtrLiteralExpr => "NullPtrLiteralExpr",
        EntityKind::ThisExpr => "ThisExpr",
        EntityKind::ThrowExpr => "ThrowExpr",
        EntityKind::NewExpr => "NewExpr",
        EntityKind::DeleteExpr => "DeleteExpr",
        EntityKind::UnaryExpr => "UnaryExpr",
        EntityKind::ObjCStringLiteral => "ObjCStringLiteral",
        EntityKind::ObjCEncodeExpr => "ObjCEncodeExpr",
        EntityKind::ObjCSelectorExpr => "ObjCSelectorExpr",
        EntityKind::ObjCProtocolExpr => "ObjCProtocolExpr",
        EntityKind::ObjCBridgedCastExpr => "ObjCBridgedCastExpr",
        EntityKind::PackExpansionExpr => "PackExpansionExpr",
        EntityKind::SizeOfPackExpr => "SizeOfPackExpr",
        EntityKind::LambdaExpr => "LambdaExpr",
        EntityKind::ObjCBoolLiteralExpr => "ObjCBoolLiteralExpr",
        EntityKind::ObjCSelfExpr => "ObjCSelfExpr",
        EntityKind::OmpArraySectionExpr => "OmpArraySectionExpr",
        EntityKind::ObjCAvailabilityCheckExpr => "ObjCAvailabilityCheckExpr",
        EntityKind::FixedPointLiteral => "FixedPointLiteral",
        EntityKind::UnexposedStmt => "UnexposedStmt",
        EntityKind::LabelStmt => "LabelStmt",
        EntityKind::CompoundStmt => "CompoundStmt",
        EntityKind::CaseStmt => "CaseStmt",
        EntityKind::DefaultStmt => "DefaultStmt",
        EntityKind::IfStmt => "IfStmt",
        EntityKind::SwitchStmt => "SwitchStmt",
        EntityKind::WhileStmt => "WhileStmt",
        EntityKind::DoStmt => "DoStmt",
        EntityKind::ForStmt => "ForStmt",
        EntityKind::GotoStmt => "GotoStmt",
        EntityKind::IndirectGotoStmt => "IndirectGotoStmt",
        EntityKind::ContinueStmt => "ContinueStmt",
        EntityKind::BreakStmt => "BreakStmt",
        EntityKind::ReturnStmt => "ReturnStmt",
        EntityKind::AsmStmt => "AsmStmt",
        EntityKind::ObjCAtTryStmt => "ObjCAtTryStmt",
        EntityKind::ObjCAtCatchStmt => "ObjCAtCatchStmt",
        EntityKind::ObjCAtFinallyStmt => "ObjCAtFinallyStmt",
        EntityKind::ObjCAtThrowStmt => "ObjCAtThrowStmt",
        EntityKind::ObjCAtSynchronizedStmt => "ObjCAtSynchronizedStmt",
        EntityKind::ObjCAutoreleasePoolStmt => "ObjCAutoreleasePoolStmt",
        EntityKind::ObjCForCollectionStmt => "ObjCForCollectionStmt",
        EntityKind::CatchStmt => "CatchStmt",
        EntityKind::TryStmt => "TryStmt",
        EntityKind::ForRangeStmt => "ForRangeStmt",
        EntityKind::SehTryStmt => "SehTryStmt",
        EntityKind::SehExceptStmt => "SehExceptStmt",
        EntityKind::SehFinallyStmt => "SehFinallyStmt",
        EntityKind::SehLeaveStmt => "SehLeaveStmt",
        EntityKind::MsAsmStmt => "MsAsmStmt",
        EntityKind::NullStmt => "NullStmt",
        EntityKind::DeclStmt => "DeclStmt",
        EntityKind::OmpParallelDirective => "OmpParallelDirective",
        EntityKind::OmpSimdDirective => "OmpSimdDirective",
        EntityKind::OmpForDirective => "OmpForDirective",
        EntityKind::OmpSectionsDirective => "OmpSectionsDirective",
        EntityKind::OmpSectionDirective => "OmpSectionDirective",
        EntityKind::OmpSingleDirective => "OmpSingleDirective",
        EntityKind::OmpParallelForDirective => "OmpParallelForDirective",
        EntityKind::OmpParallelSectionsDirective => "OmpParallelSectionsDirective",
        EntityKind::OmpTaskDirective => "OmpTaskDirective",
        EntityKind::OmpMasterDirective => "OmpMasterDirective",
        EntityKind::OmpCriticalDirective => "OmpCriticalDirective",
        EntityKind::OmpTaskyieldDirective => "OmpTaskyieldDirective",
        EntityKind::OmpBarrierDirective => "OmpBarrierDirective",
        EntityKind::OmpTaskwaitDirective => "OmpTaskwaitDirective",
        EntityKind::OmpFlushDirective => "OmpFlushDirective",
        EntityKind::OmpOrderedDirective => "OmpOrderedDirective",
        EntityKind::OmpAtomicDirective => "OmpAtomicDirective",
        EntityKind::OmpForSimdDirective => "OmpForSimdDirective",
        EntityKind::OmpParallelForSimdDirective => "OmpParallelForSimdDirective",
        EntityKind::OmpTargetDirective => "OmpTargetDirective",
        EntityKind::OmpTeamsDirective => "OmpTeamsDirective",
        EntityKind::OmpTaskgroupDirective => "OmpTaskgroupDirective",
        EntityKind::OmpCancellationPointDirective => "OmpCancellationPointDirective",
        EntityKind::OmpCancelDirective => "OmpCancelDirective",
        EntityKind::OmpTargetDataDirective => "OmpTargetDataDirective",
        EntityKind::OmpTaskLoopDirective => "OmpTaskLoopDirective",
        EntityKind::OmpTaskLoopSimdDirective => "OmpTaskLoopSimdDirective",
        EntityKind::OmpDistributeDirective => "OmpDistributeDirective",
        EntityKind::OmpTargetEnterDataDirective => "OmpTargetEnterDataDirective",
        EntityKind::OmpTargetExitDataDirective => "OmpTargetExitDataDirective",
        EntityKind::OmpTargetParallelDirective => "OmpTargetParallelDirective",
        EntityKind::OmpTargetParallelForDirective => "OmpTargetParallelForDirective",
        EntityKind::OmpTargetUpdateDirective => "OmpTargetUpdateDirective",
        EntityKind::OmpDistributeParallelForDirective => "OmpDistributeParallelForDirective",
        EntityKind::OmpDistributeParallelForSimdDirective => "OmpDistributeParallelForSimdDirective",
        EntityKind::OmpDistributeSimdDirective => "OmpDistributeSimdDirective",
        EntityKind::OmpTargetParallelForSimdDirective => "OmpTargetParallelForSimdDirective",
        EntityKind::OmpTargetSimdDirective => "OmpTargetSimdDirective",
        EntityKind::OmpTeamsDistributeDirective => "OmpTeamsDistributeDirective",
        EntityKind::OmpTeamsDistributeSimdDirective => "OmpTeamsDistributeSimdDirective",
        EntityKind::OmpTeamsDistributeParallelForSimdDirective => "OmpTeamsDistributeParallelForSimdDirective",
        EntityKind::OmpTeamsDistributeParallelForDirective => "OmpTeamsDistributeParallelForDirective",
        EntityKind::OmpTargetTeamsDirective => "OmpTargetTeamsDirective",
        EntityKind::OmpTargetTeamsDistributeDirective => "OmpTargetTeamsDistributeDirective",
        EntityKind::OmpTargetTeamsDistributeParallelForDirective => "OmpTargetTeamsDistributeParallelForDirective",
        EntityKind::OmpTargetTeamsDistributeParallelForSimdDirective => "OmpTargetTeamsDistributeParallelForSimdDirective",
        EntityKind::OmpTargetTeamsDistributeSimdDirective => "OmpTargetTeamsDistributeSimdDirective",
        EntityKind::BitCastExpr => "BitCastExpr",
        EntityKind::OmpMasterTaskLoopDirective => "OmpMasterTaskLoopDirective",
        EntityKind::OmpParallelMasterTaskLoopDirective => "OmpParallelMasterTaskLoopDirective",
        EntityKind::OmpMasterTaskLoopSimdDirective => "OmpMasterTaskLoopSimdDirective",
        EntityKind::OmpParallelMasterTaskLoopSimdDirective => "OmpParallelMasterTaskLoopSimdDirective",
        EntityKind::OmpParallelMasterDirective => "OmpParallelMasterDirective",
        EntityKind::TranslationUnit => "TranslationUnit",
        EntityKind::UnexposedAttr => "UnexposedAttr",
        EntityKind::IbActionAttr => "IbActionAttr",
        EntityKind::IbOutletAttr => "IbOutletAttr",
        EntityKind::IbOutletCollectionAttr => "IbOutletCollectionAttr",
        EntityKind::FinalAttr => "FinalAttr",
        EntityKind::OverrideAttr => "OverrideAttr",
        EntityKind::AnnotateAttr => "AnnotateAttr",
        EntityKind::AsmLabelAttr => "AsmLabelAttr",
        EntityKind::PackedAttr => "PackedAttr",
        EntityKind::PureAttr => "PureAttr",
        EntityKind::ConstAttr => "ConstAttr",
        EntityKind::NoDuplicateAttr => "NoDuplicateAttr",
        EntityKind::CudaConstantAttr => "CudaConstantAttr",
        EntityKind::CudaDeviceAttr => "CudaDeviceAttr",
        EntityKind::CudaGlobalAttr => "CudaGlobalAttr",
        EntityKind::CudaHostAttr => "CudaHostAttr",
        EntityKind::CudaSharedAttr => "CudaSharedAttr",
        EntityKind::VisibilityAttr => "VisibilityAttr",
        EntityKind::DllExport => "DllExport",
        EntityKind::DllImport => "DllImport",
        EntityKind::NSReturnsRetained => "NSReturnsRetained",
        EntityKind::NSReturnsNotRetained => "NSReturnsNotRetained",
        EntityKind::NSReturnsAutoreleased => "NSReturnsAutoreleased",
        EntityKind::NSConsumesSelf => "NSConsumesSelf",
        EntityKind::NSConsumed => "NSConsumed",
        EntityKind::ObjCException => "ObjCException",
        EntityKind::ObjCNSObject => "ObjCNSObject",
        EntityKind::ObjCIndependentClass => "ObjCIndependentClass",
        EntityKind::ObjCPreciseLifetime => "ObjCPreciseLifetime",
        EntityKind::ObjCReturnsInnerPointer => "ObjCReturnsInnerPointer",
        EntityKind::ObjCRequiresSuper => "ObjCRequiresSuper",
        EntityKind::ObjCRootClass => "ObjCRootClass",
        EntityKind::ObjCSubclassingRestricted => "ObjCSubclassingRestricted",
        EntityKind::ObjCExplicitProtocolImpl => "ObjCExplicitProtocolImpl",
        EntityKind::ObjCDesignatedInitializer => "ObjCDesignatedInitializer",
        EntityKind::ObjCRuntimeVisible => "ObjCRuntimeVisible",
        EntityKind::ObjCBoxable => "ObjCBoxable",
        EntityKind::FlagEnum => "FlagEnum",
        EntityKind::ConvergentAttr => "ConvergentAttr",
        EntityKind::WarnUnusedAttr => "WarnUnusedAttr",
        EntityKind::WarnUnusedResultAttr => "WarnUnusedResultAttr",
        EntityKind::AlignedAttr => "AlignedAttr",
        EntityKind::PreprocessingDirective => "PreprocessingDirective",
        EntityKind::MacroDefinition => "MacroDefinition",
        EntityKind::MacroExpansion => "MacroExpansion",
        EntityKind::InclusionDirective => "InclusionDirective",
        EntityKind::ModuleImportDecl => "ModuleImportDecl",
        EntityKind::TypeAliasTemplateDecl => "TypeAliasTemplateDecl",
        EntityKind::StaticAssert => "StaticAssert",
        EntityKind::FriendDecl => "FriendDecl",
        EntityKind::OverloadCandidate => "OverloadCandidate",
    }
}

} // verus!
