use lightning::syntax_highlighting::{ParseEvent, ParseState};

    #[test]
    fn parse_state() {
        let lang = "rust";

        assert_eq!(
            ParseState::NotInBlock.next(ParseEvent::StartPre(Some(lang.into()))),
            ParseState::MaybeStartBlock(lang.into())
        );

        assert_eq!(
            ParseState::NotInBlock.next(ParseEvent::EndCode),
            ParseState::NotInBlock
        );

        assert_eq!(
            ParseState::NotInBlock.next(ParseEvent::Other),
            ParseState::NotInBlock
        );

        assert_eq!(
            ParseState::NotInBlock.next(ParseEvent::StartCode),
            ParseState::NotInBlock
        );

        assert_eq!(
            ParseState::MaybeStartBlock(lang.into()).next(ParseEvent::StartCode),
            ParseState::WillStartCodeBlock(lang.into())
        );

        assert_eq!(
            ParseState::MaybeStartBlock(lang.into()).next(ParseEvent::Text),
            ParseState::NotInBlock
        );

        assert_eq!(
            ParseState::MaybeStartBlock(lang.into()).next(ParseEvent::EndCode),
            ParseState::NotInBlock
        );

        assert_eq!(
            ParseState::MaybeStartBlock(lang.into()).next(ParseEvent::StartPre(Some(lang.into()))),
            ParseState::NotInBlock
        );

        assert_eq!(
            ParseState::MaybeStartBlock(lang.into()).next(ParseEvent::Other),
            ParseState::NotInBlock
        );

        assert_eq!(
            ParseState::WillStartCodeBlock(lang.into()).next(ParseEvent::Text),
            ParseState::InCodeBlock(lang.into())
        );
    }
