//! Abstract syntax tree of GalaxC programs.

pub mod nodes;

pub use nodes::{
    NodeId, Program, ModuleDecl, ModulePath, ImportDecl, ImportNames, Item, OpDecl, Param, GenericParam, Annotation, AnnotationArg, TypeExpr, StructDecl, FieldDecl, EnumDecl, VariantDecl, AbilityDecl, ImplBlock, ConstDecl, TaskDecl, TaskEntry, TaskBodyDecl, ProtectedBlock, ProtectedField, UnitDeclNode, ExternBlock, StaticAssertNode, Block, Stmt, LetStmt, VarStmt, AssignStmt, AssignOp, ExprStmt, IfStmt, MatchStmt, MatchArm, MatchArmBody, ForStmt, WhileStmt, LoopStmt, ReturnStmt, BreakStmt, ContinueStmt, SelectStmt, SelectArm, Pattern, PatternField, Expr, CastExpr, LiteralExpr, LiteralValue, IdentExpr, BinaryExpr, BinaryOp, binary_op_text, UnaryExpr, UnaryOp, CallExpr, CallArg, MethodCallExpr, FieldAccessExpr, IndexExpr, StructLiteralExpr, StructFieldInit, ClosureExpr, ClosureParam, IfExpr, MatchExpr, PropagateExpr, ErrorConvertExpr, RangeExpr, ArrayLiteralExpr, TupleLiteralExpr, PathExpr, UnsafeBlockExpr, SelfExprNode, PipelineExpr, ConcatExpr,
};
